use marker_tracker::blob::{LabelStats, Point};
use marker_tracker::error::DegenerateInputError;
use marker_tracker::overlay::{confidence, pair_overlay, red_and_green};
use marker_tracker::params::TunableParameters;
use marker_tracker::pipeline::{
    stage_images, stage_name, Event, FrameError, FramePipeline, Marker, Request, Stage,
};
use marker_tracker::rational::Rational;

fn row(area: i32, cx: i32, cy: i32, left: i32, top: i32, width: i32, height: i32) -> LabelStats {
    LabelStats { area, left, top, width, height, centroid_x: cx, centroid_y: cy }
}

fn background() -> LabelStats {
    row(300000, 320, 240, 0, 0, 640, 480)
}

const ALL_STAGES: [Stage; 5] =
    [Stage::Flipped, Stage::HsvFilter, Stage::Closing, Stage::Blobbing, Stage::Result];

/// Runs a frame to the end of labelling and returns the requests made.
fn run(pipeline: &mut FramePipeline, first: Vec<LabelStats>, second: Vec<LabelStats>) -> Vec<Request> {
    let mut requests = Vec::new();
    let mut stats = vec![second, first];
    loop {
        let request = pipeline.request();
        requests.push(request);
        let event = match request {
            Request::Finished => return requests,
            Request::Label { .. } => Event::Labelled(stats.pop().unwrap()),
            _ => Event::Completed,
        };
        if pipeline.handle(event).is_err() {
            requests.push(pipeline.request());
            return requests;
        }
    }
}

#[test]
fn a_frame_asks_for_its_steps_in_order() {
    let mut pipeline = FramePipeline::new(TunableParameters::init());
    let requests = run(&mut pipeline, vec![background()], vec![background()]);
    assert_eq!(
        requests,
        vec![
            Request::Flip,
            Request::ConvertToHsv,
            Request::Segment { marker: Marker::First },
            Request::Segment { marker: Marker::Second },
            Request::Close { marker: Marker::First, kernel_size: 5, iterations: 1 },
            Request::Close { marker: Marker::Second, kernel_size: 5, iterations: 1 },
            Request::Label { marker: Marker::First },
            Request::Label { marker: Marker::Second },
            Request::Annotate,
            Request::Finished,
        ]
    );
}

#[test]
fn closing_uses_the_parameters_of_the_frame() {
    let mut params = TunableParameters::init();
    params.set_close_kernel_size(11).unwrap();
    params.set_close_iterations(3).unwrap();
    let mut pipeline = FramePipeline::new(params);
    let requests = run(&mut pipeline, vec![background()], vec![background()]);
    assert_eq!(requests[4], Request::Close { marker: Marker::First, kernel_size: 11, iterations: 3 });
    assert_eq!(requests[5], Request::Close { marker: Marker::Second, kernel_size: 11, iterations: 3 });
}

#[test]
fn stages_appear_as_their_steps_complete() {
    let mut pipeline = FramePipeline::new(TunableParameters::init());
    let mut shown = vec![pipeline.get_steps().len()];
    for i in 0..9 {
        let event = if i == 6 || i == 7 { Event::Labelled(vec![background()]) } else { Event::Completed };
        pipeline.handle(event).unwrap();
        let stages = pipeline.get_steps();
        assert_eq!(stages[..], ALL_STAGES[..stages.len()]);
        shown.push(stages.len());
    }
    assert_eq!(shown, vec![0, 1, 1, 1, 2, 2, 3, 3, 4, 5]);
    assert_eq!(pipeline.request(), Request::Finished);
}

#[test]
fn the_stage_order_is_the_same_whatever_is_found() {
    let one = vec![background(), row(1000, 100, 100, 80, 80, 40, 40)];
    let other = vec![background(), row(1000, 100, 160, 80, 140, 40, 40)];
    let many = vec![
        background(),
        row(1000, 100, 160, 80, 140, 40, 40),
        row(400, 300, 90, 290, 80, 20, 20),
        row(2000, 120, 300, 70, 250, 100, 100),
        row(5, 1, 1, 0, 0, 3, 3),
    ];
    let none = vec![background()];
    let cases = [
        (none.clone(), none.clone(), 0, 0, false),
        (one.clone(), none.clone(), 1, 0, false),
        (none.clone(), many.clone(), 0, 3, false),
        (one.clone(), other.clone(), 1, 1, true),
        (one.clone(), many.clone(), 1, 3, true),
        (many.clone(), many.clone(), 3, 3, false),
    ];
    for (first, second, first_blobs, second_blobs, found) in cases {
        let mut pipeline = FramePipeline::new(TunableParameters::init());
        run(&mut pipeline, first, second);
        assert_eq!(pipeline.get_steps(), ALL_STAGES.to_vec());
        assert_eq!(pipeline.blobs(Marker::First).info.len(), first_blobs);
        assert_eq!(pipeline.blobs(Marker::Second).info.len(), second_blobs);
        assert_eq!(pipeline.position().is_some(), found);
        assert_eq!(pipeline.selected().is_some(), found);
    }
}

#[test]
fn stages_have_their_names_and_image_counts() {
    let names: Vec<&str> = ALL_STAGES.iter().map(|s| stage_name(*s)).collect();
    assert_eq!(names, vec!["Flipped", "HSV Filter", "Closing", "Blobbing", "Result"]);
    let counts: Vec<usize> = ALL_STAGES.iter().map(|s| stage_images(*s)).collect();
    assert_eq!(counts, vec![1, 2, 2, 2, 1]);
}

#[test]
fn a_frame_resolves_to_the_midpoint_of_its_best_pair() {
    let first = vec![
        background(),
        row(400, 300, 90, 290, 80, 20, 20),
        row(1000, 100, 100, 80, 80, 40, 40),
        row(29, 1, 1, 0, 0, 6, 6),
    ];
    let second = vec![
        background(),
        row(380, 302, 118, 292, 108, 20, 20),
        row(1000, 100, 160, 80, 140, 40, 40),
    ];
    let mut pipeline = FramePipeline::new(TunableParameters::init());
    run(&mut pipeline, first, second);
    assert_eq!(pipeline.blobs(Marker::First).kept, vec![1, 2]);
    assert_eq!(pipeline.blobs(Marker::Second).kept, vec![1, 2]);
    let areas: Vec<i32> = pipeline.blobs(Marker::First).info.iter().map(|b| b.area).collect();
    assert_eq!(areas, vec![1000, 400]);
    let accepted = pipeline.accepted_pairs();
    // Pairs are tried by the larger blob of the first marker first; the two
    // stacks are accepted, the mixed pairs are not.
    let areas: Vec<(i32, i32)> = accepted.iter().map(|c| (c.lower.area, c.upper.area)).collect();
    assert_eq!(areas, vec![(1000, 1000), (400, 380)]);
    assert!(accepted[0].score.aggregate.equals(&Rational::new(9, 10).unwrap()));
    assert!(accepted[1].score.aggregate.equals(&Rational::new(14121, 15652).unwrap()));
    // The smaller stack scores a little more.
    assert_eq!(pipeline.selected(), Some(1));
    assert_eq!(pipeline.position(), Some(Point { x: 301, y: 104 }));
}

#[test]
fn a_frame_without_a_pair_is_done_without_a_position() {
    let mut pipeline = FramePipeline::new(TunableParameters::init());
    let far = vec![background(), row(1000, 500, 100, 480, 80, 40, 40)];
    let small = vec![background(), row(40, 100, 400, 98, 380, 4, 40)];
    let requests = run(&mut pipeline, far, small);
    assert_eq!(requests.last(), Some(&Request::Finished));
    assert_eq!(requests.len(), 10);
    assert_eq!(pipeline.get_steps(), ALL_STAGES.to_vec());
    assert!(pipeline.accepted_pairs().is_empty());
    assert_eq!(pipeline.selected(), None);
    assert_eq!(pipeline.position(), None);
}

#[test]
fn a_failed_step_gives_the_frame_up() {
    let mut pipeline = FramePipeline::new(TunableParameters::init());
    pipeline.handle(Event::Completed).unwrap();
    pipeline.handle(Event::Completed).unwrap();
    assert_eq!(pipeline.handle(Event::Failed), Err(FrameError::Upstream));
    assert_eq!(pipeline.request(), Request::Finished);
    assert_eq!(pipeline.get_steps(), vec![Stage::Flipped]);
    assert_eq!(pipeline.handle(Event::Completed), Err(FrameError::OutOfTurn));
    assert_eq!(pipeline.handle(Event::Failed), Err(FrameError::OutOfTurn));
    assert_eq!(pipeline.request(), Request::Finished);
    assert_eq!(pipeline.get_steps(), vec![Stage::Flipped]);
}

#[test]
fn an_event_out_of_turn_changes_nothing() {
    let mut pipeline = FramePipeline::new(TunableParameters::init());
    assert_eq!(pipeline.handle(Event::Labelled(vec![background()])), Err(FrameError::OutOfTurn));
    assert_eq!(pipeline.request(), Request::Flip);
    for _ in 0..6 {
        pipeline.handle(Event::Completed).unwrap();
    }
    assert_eq!(pipeline.request(), Request::Label { marker: Marker::First });
    assert_eq!(pipeline.handle(Event::Completed), Err(FrameError::OutOfTurn));
    assert_eq!(pipeline.request(), Request::Label { marker: Marker::First });
    pipeline.handle(Event::Labelled(vec![background()])).unwrap();
    assert_eq!(pipeline.handle(Event::Completed), Err(FrameError::OutOfTurn));
    pipeline.handle(Event::Labelled(vec![background()])).unwrap();
    assert_eq!(pipeline.handle(Event::Labelled(vec![background()])), Err(FrameError::OutOfTurn));
    assert_eq!(pipeline.request(), Request::Annotate);
    pipeline.handle(Event::Completed).unwrap();
    assert_eq!(pipeline.handle(Event::Completed), Err(FrameError::OutOfTurn));
    assert_eq!(pipeline.get_steps(), ALL_STAGES.to_vec());
}

#[test]
fn a_pair_without_a_score_gives_the_frame_up() {
    let mut params = TunableParameters::init();
    for i in 0..4 {
        params.set_component_weight(i, Rational::from_int(0)).unwrap();
    }
    let mut pipeline = FramePipeline::new(params);
    let one = vec![background(), row(1000, 100, 100, 80, 80, 40, 40)];
    let other = vec![background(), row(1000, 100, 160, 80, 140, 40, 40)];
    for _ in 0..6 {
        pipeline.handle(Event::Completed).unwrap();
    }
    pipeline.handle(Event::Labelled(one)).unwrap();
    assert_eq!(
        pipeline.handle(Event::Labelled(other)),
        Err(FrameError::Degenerate(DegenerateInputError::ZeroTotalWeight))
    );
    assert_eq!(pipeline.request(), Request::Finished);
    assert_eq!(pipeline.get_steps(), vec![Stage::Flipped, Stage::HsvFilter, Stage::Closing]);
    assert_eq!(pipeline.position(), None);
}

#[test]
fn every_accepted_pair_can_be_drawn() {
    let first = vec![background(), row(400, 300, 90, 290, 80, 20, 20), row(1000, 100, 100, 80, 80, 40, 40)];
    let second = vec![background(), row(380, 302, 118, 292, 108, 20, 20), row(1000, 100, 160, 80, 140, 40, 40)];
    let mut pipeline = FramePipeline::new(TunableParameters::init());
    run(&mut pipeline, first, second);
    let cap = pipeline.params().similarity_cap();
    assert!(cap.equals(&Rational::new(1, 2).unwrap()));
    let mut drawn = Vec::new();
    for pair in pipeline.accepted_pairs() {
        let overlay = pair_overlay(&pair.lower, 640).unwrap();
        let c = confidence(&pair.score.aggregate, cap);
        let (red, green) = red_and_green(&c);
        assert!(red.plus(&green).equals(&Rational::from_int(255)));
        assert!(!c.is_negative());
        assert_eq!(overlay.centers.len(), 4);
        drawn.push((overlay.text_origin, overlay.radius, c));
    }
    assert_eq!(drawn.len(), 2);
    assert_eq!(drawn[0].0, Point { x: 80, y: 80 });
    assert_eq!(drawn[0].1, 4);
    // (9/10 - 1/2) / (1 - 1/2)
    assert!(drawn[0].2.equals(&Rational::new(4, 5).unwrap()));
    assert_eq!(drawn[1].0, Point { x: 290, y: 80 });
    assert_eq!(drawn[1].1, 2);
}
