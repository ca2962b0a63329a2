use mnist_classifier::classifier::{can_prepare, conclude, fits_resampler, prepare_canvas, Action, MNIST};
use mnist_classifier::error::PipelineError;
use mnist_classifier::grid::IntensityGrid;

/// A 28 x 28 drawing of a "0": a dark ring on a white ground.
fn zero_drawing() -> Vec<u8> {
    let mut data = vec![255u8; 784];
    for y in 0..28i32 {
        for x in 0..28i32 {
            let d = (x - 14) * (x - 14) + (y - 14) * (y - 14);
            if (49..=100).contains(&d) {
                data[(y * 28 + x) as usize] = 0;
            }
        }
    }
    data
}

/// The same drawing as an opaque RGBA capture.
fn zero_canvas() -> Vec<u8> {
    let mut bytes = Vec::new();
    for level in zero_drawing() {
        bytes.extend_from_slice(&[level, level, level, 255]);
    }
    bytes
}

/// The tensor of the drawing: 1 on the ring, 0 elsewhere.
fn zero_tensor() -> Vec<u8> {
    zero_drawing().iter().map(|level| if *level == 0 { 1 } else { 0 }).collect()
}

/// Scores, as bit patterns, that put one class above the others.
fn scores_for(digit: usize) -> Vec<u32> {
    let mut scores = vec![-1.5f32; 10];
    scores[digit] = 9.25;
    scores.iter().map(|s| s.to_bits()).collect()
}

#[test]
fn new_session_is_uninitialized() {
    let session: MNIST<&str> = MNIST::new();
    assert!(!session.is_ready());
    assert_eq!(session.model(), None);
}

#[test]
fn first_request_asks_for_the_model() {
    let mut session: MNIST<&str> = MNIST::new();
    assert_eq!(session.execute(zero_canvas(), 28, 28), Action::LoadModel);
    assert_eq!(session.resume(), Action::LoadModel);
    assert!(!session.is_ready());
}

#[test]
fn request_goes_on_once_the_model_is_loaded() {
    let mut session: MNIST<&str> = MNIST::new();
    assert_eq!(session.execute(zero_canvas(), 28, 28), Action::LoadModel);
    match session.model_loaded(Some("model")) {
        Action::RunInference(tensor) => assert_eq!(tensor.values(), &zero_tensor()),
        other => panic!("{:?}", other),
    }
    assert!(session.is_ready());
    assert_eq!(session.model(), Some(&"model"));
}

#[test]
fn model_is_loaded_only_once() {
    let mut session: MNIST<&str> = MNIST::new();
    session.install_model(Some("first"));
    session.install_model(Some("second"));
    assert_eq!(session.model(), Some(&"first"));
    session.install_model(None);
    assert_eq!(session.model(), Some(&"first"));
    session.execute(zero_canvas(), 28, 28);
    session.model_loaded(Some("third"));
    assert_eq!(session.model(), Some(&"first"));
}

#[test]
fn later_requests_do_not_ask_for_the_model() {
    let mut session: MNIST<&str> = MNIST::new();
    session.install_model(Some("model"));
    for _ in 0..3 {
        match session.execute(zero_canvas(), 28, 28) {
            Action::RunInference(tensor) => assert_eq!(tensor.values(), &zero_tensor()),
            other => panic!("{:?}", other),
        }
    }
}

#[test]
fn failed_load_fails_the_request_and_not_the_next() {
    let mut session: MNIST<&str> = MNIST::new();
    assert_eq!(session.execute(zero_canvas(), 28, 28), Action::LoadModel);
    assert_eq!(session.model_loaded(None), Action::Fail(PipelineError::ModelLoadFailure));
    assert!(!session.is_ready());
    assert_eq!(session.execute(zero_canvas(), 28, 28), Action::LoadModel);
    assert!(matches!(session.model_loaded(Some("model")), Action::RunInference(_)));
}

#[test]
fn model_is_loaded_before_the_capture_is_checked() {
    let mut session: MNIST<&str> = MNIST::new();
    assert_eq!(session.execute(vec![0; 5], 28, 28), Action::LoadModel);
    assert_eq!(session.model_loaded(None), Action::Fail(PipelineError::ModelLoadFailure));
    assert_eq!(session.model_loaded(Some("model")), Action::Fail(PipelineError::InvalidBufferSize));
}

#[test]
fn invalid_capture_fails_with_invalid_buffer_size() {
    let mut session: MNIST<&str> = MNIST::new();
    session.install_model(Some("model"));
    let mut bytes = zero_canvas();
    bytes.pop();
    assert_eq!(session.execute(bytes, 28, 28), Action::Fail(PipelineError::InvalidBufferSize));
    assert_eq!(session.execute(zero_canvas(), 28, 29), Action::Fail(PipelineError::InvalidBufferSize));
}

#[test]
fn blank_capture_fails_with_empty_canvas() {
    let mut session: MNIST<&str> = MNIST::new();
    session.install_model(Some("model"));
    assert_eq!(session.execute(vec![0; 280 * 280 * 4], 280, 280), Action::Fail(PipelineError::EmptyCanvas));
    assert_eq!(session.execute(Vec::new(), 0, 0), Action::Fail(PipelineError::EmptyCanvas));
}

#[test]
fn drawing_of_zero_is_classified_as_zero() {
    let mut session: MNIST<&str> = MNIST::new();
    session.install_model(Some("model"));
    let grid = IntensityGrid::from_luma(zero_drawing(), 28, 28).unwrap();
    let tensor = match session.classify(&grid) {
        Action::RunInference(tensor) => tensor,
        other => panic!("{:?}", other),
    };
    assert_eq!(tensor.values(), &zero_tensor());
    assert_eq!(tensor.at(14, 14), 0);
    assert_eq!(tensor.at(14, 5), 1);
    assert_eq!(session.inference_finished(Some(scores_for(0))), Action::Report(0));
}

#[test]
fn grid_request_asks_for_the_model_first() {
    let session: MNIST<&str> = MNIST::new();
    let grid = IntensityGrid::from_luma(zero_drawing(), 28, 28).unwrap();
    assert_eq!(session.classify(&grid), Action::LoadModel);
}

#[test]
fn blank_grid_fails_with_empty_canvas() {
    let mut session: MNIST<&str> = MNIST::new();
    session.install_model(Some("model"));
    let grid = IntensityGrid::from_luma(vec![0; 50 * 20], 50, 20).unwrap();
    assert_eq!(session.classify(&grid), Action::Fail(PipelineError::EmptyCanvas));
}

#[test]
fn every_digit_can_be_reported() {
    let session: MNIST<&str> = MNIST::new();
    for digit in 0..10 {
        assert_eq!(session.inference_finished(Some(scores_for(digit))), Action::Report(digit));
    }
}

#[test]
fn failed_inference_fails_the_request_and_not_the_session() {
    let mut session: MNIST<&str> = MNIST::new();
    session.install_model(Some("model"));
    assert!(matches!(session.execute(zero_canvas(), 28, 28), Action::RunInference(_)));
    assert_eq!(session.inference_finished(None), Action::Fail(PipelineError::InferenceFailure));
    assert!(session.is_ready());
    assert!(matches!(session.resume(), Action::RunInference(_)));
    assert_eq!(session.inference_finished(Some(scores_for(4))), Action::Report(4));
}

#[test]
fn same_capture_gives_the_same_answer() {
    let mut session: MNIST<&str> = MNIST::new();
    session.install_model(Some("model"));
    let first = session.execute(zero_canvas(), 28, 28);
    assert_eq!(session.resume(), first);
    assert_eq!(session.execute(zero_canvas(), 28, 28), first);
    let scores = scores_for(0);
    assert_eq!(session.inference_finished(Some(scores.clone())), session.inference_finished(Some(scores)));
}

#[test]
fn clear_forgets_the_capture_and_keeps_the_model() {
    let mut session: MNIST<&str> = MNIST::new();
    session.install_model(Some("model"));
    assert!(matches!(session.execute(zero_canvas(), 28, 28), Action::RunInference(_)));
    session.clear();
    assert_eq!(session.resume(), Action::Fail(PipelineError::InvalidBufferSize));
    assert_eq!(session.model(), Some(&"model"));
}

#[test]
fn prepare_canvas_converts_and_preprocesses() {
    assert_eq!(prepare_canvas(&zero_canvas(), 28, 28).unwrap().values(), &zero_tensor());
    assert_eq!(prepare_canvas(&zero_canvas(), 28, 27), Err(PipelineError::InvalidBufferSize));
    assert_eq!(prepare_canvas(&vec![0; 16], 2, 2), Err(PipelineError::EmptyCanvas));
}

#[test]
fn prepare_canvas_resamples_a_large_canvas() {
    let mut bytes = Vec::new();
    for _ in 0..280 {
        for x in 0..280 {
            let level = if x < 140 { 0 } else { 255 };
            bytes.extend_from_slice(&[level, level, level, 255]);
        }
    }
    let tensor = prepare_canvas(&bytes, 280, 280).unwrap();
    for y in 0..28 {
        for x in 0..28 {
            assert_eq!(tensor.at(y, x), if x < 14 { 1 } else { 0 });
        }
    }
}

#[test]
fn conclude_reads_the_digit() {
    assert_eq!(conclude(Some(scores_for(7))), Ok(7));
    assert_eq!(conclude(None), Err(PipelineError::InferenceFailure));
}

#[test]
fn ordinary_sizes_fit_the_resampler() {
    assert!(fits_resampler(1, 1));
    assert!(fits_resampler(28, 28));
    assert!(fits_resampler(280, 280));
    assert!(fits_resampler(65_535, 65_535));
}

#[test]
fn capture_that_is_refused_before_resampling_is_in_reach() {
    assert!(can_prepare(280 * 280 * 4, 280, 280));
    assert!(can_prepare(5, u32::MAX, u32::MAX));
    assert!(can_prepare(0, 0, u32::MAX));
    assert!(can_prepare(0, u32::MAX, 0));
    assert!(can_prepare(16, 2, 2));
    assert!(can_prepare(15, 2, 2));
}

#[test]
fn every_error_has_its_own_message() {
    let errors = [
        PipelineError::InvalidBufferSize,
        PipelineError::EmptyCanvas,
        PipelineError::DecodeFailure,
        PipelineError::ModelLoadFailure,
        PipelineError::InferenceFailure,
    ];
    for (i, a) in errors.iter().enumerate() {
        assert!(!a.message().is_empty());
        for b in &errors[i + 1..] {
            assert_ne!(a.message(), b.message());
        }
    }
    assert_eq!(PipelineError::EmptyCanvas.message(), "nothing is drawn; draw a digit and try again");
}

#[test]
fn new_session_knows_the_default_tensor_names() {
    let session: MNIST<&str> = MNIST::new();
    assert_eq!(session.input_name(), "Input3");
    assert_eq!(session.output_name(), "Plus214_Output_0");
}

#[test]
fn tensor_names_are_configurable_and_kept() {
    let mut session: MNIST<&str> = MNIST::with_tensor_names("image".to_string(), "logits".to_string());
    assert!(!session.is_ready());
    assert_eq!(session.execute(zero_canvas(), 28, 28), Action::LoadModel);
    assert!(matches!(session.model_loaded(Some("model")), Action::RunInference(_)));
    session.clear();
    assert_eq!(session.input_name(), "image");
    assert_eq!(session.output_name(), "logits");
}

#[test]
fn grid_request_goes_on_once_the_model_is_loaded() {
    let mut session: MNIST<&str> = MNIST::new();
    let grid = IntensityGrid::from_luma(zero_drawing(), 28, 28).unwrap();
    assert_eq!(session.classify(&grid), Action::LoadModel);
    assert_eq!(session.model_loaded_for(None, &grid), Action::Fail(PipelineError::ModelLoadFailure));
    assert!(!session.is_ready());
    match session.model_loaded_for(Some("model"), &grid) {
        Action::RunInference(tensor) => assert_eq!(tensor.values(), &zero_tensor()),
        other => panic!("{:?}", other),
    }
    assert_eq!(session.model(), Some(&"model"));
    session.model_loaded_for(Some("other"), &grid);
    assert_eq!(session.model(), Some(&"model"));
}
