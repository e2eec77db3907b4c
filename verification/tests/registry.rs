use no_captcha::errors::Error;
use no_captcha::CaptchaChallenge;
use no_captcha::CaptchaRegistry;
use no_captcha::ModelDirectory;
use no_captcha::Prediction;

/// A model that answers every image with the same two confidences.
struct Stub {
    affirmative: f32,
    negative: f32,
    runs: u32,
}

fn entry(name: &str, has_saved_model: bool) -> ModelDirectory {
    ModelDirectory { name: Some(name.to_string()), has_saved_model }
}

fn stub(_: CaptchaChallenge) -> Result<Stub, u32> {
    Ok(Stub { affirmative: 0.9, negative: 0.1, runs: 0 })
}

fn run(model: &mut Stub, _image: Vec<u8>) -> Result<(u32, u32), u32> {
    model.runs += 1;
    Ok((model.affirmative.to_bits(), model.negative.to_bits()))
}

fn loaded(registry: &CaptchaRegistry<Stub>) -> Vec<CaptchaChallenge> {
    (0..16u64)
        .filter_map(CaptchaChallenge::from_ordinal)
        .filter(|c| registry.is_loaded(c))
        .collect()
}

#[test]
fn load_models() {
    let entries = vec![entry("bus", true), entry("cars", true), entry("taxis", true)];
    let registry = CaptchaRegistry::load_from_models_dir(&entries, stub);
    assert!(registry.map(|_| ()).is_ok());
}

#[test]
fn prediction() {
    let entries = vec![entry("bus", true)];
    let registry = CaptchaRegistry::load_from_models_dir(&entries, stub).unwrap();
    let prediction = registry.predict(&CaptchaChallenge::Bus, b"anything".to_vec(), run);
    let prediction = prediction.unwrap();
    assert_eq!(prediction, Prediction::new(0.9f32.to_bits(), 0.1f32.to_bits()));
    assert_eq!(f32::from_bits(prediction.affirmative_confidence()), 0.9);
    assert_eq!(f32::from_bits(prediction.negative_confidence()), 0.1);
    assert!(prediction.is_mainly_affirmative());
}

#[test]
fn an_empty_directory_loads_an_empty_registry() {
    let registry = CaptchaRegistry::load_from_models_dir(&Vec::new(), stub).unwrap();
    assert!(loaded(&registry).is_empty());
}

#[test]
fn load_registers_exactly_the_named_challenges() {
    let entries = vec![entry("taxis", true), entry("bus", true), entry("a_fire_hydrant", true)];
    let registry = CaptchaRegistry::load_from_models_dir(&entries, stub).unwrap();
    assert_eq!(
        loaded(&registry),
        vec![CaptchaChallenge::AFireHydrant, CaptchaChallenge::Bus, CaptchaChallenge::Taxis]
    );
}

#[test]
fn a_missing_model_fails_the_whole_load() {
    let entries = vec![entry("bus", true), entry("cars", false), entry("taxis", true)];
    let result = CaptchaRegistry::load_from_models_dir(&entries, stub);
    assert!(matches!(result, Err(Error::ModelLoad(CaptchaChallenge::Cars))));
}

#[test]
fn a_missing_model_fails_before_its_loader_runs() {
    let entries = vec![entry("cars", false)];
    let result = CaptchaRegistry::<Stub>::load_from_models_dir(&entries, |_| {
        panic!("the loader must not run")
    });
    assert!(matches!(result, Err(Error::ModelLoad(CaptchaChallenge::Cars))));
}

#[test]
fn a_rejected_model_fails_the_whole_load() {
    let entries = vec![entry("bus", true), entry("cars", true)];
    let result = CaptchaRegistry::load_from_models_dir(&entries, |c| {
        if c == CaptchaChallenge::Cars {
            Err(5)
        } else {
            stub(c)
        }
    });
    assert!(matches!(result, Err(Error::TensorflowError(5))));
}

#[test]
fn the_first_failure_in_order_is_reported() {
    let entries = vec![entry("bus", true), entry("cars", false)];
    let result = CaptchaRegistry::<Stub>::load_from_models_dir(&entries, |_| Err(13));
    assert!(matches!(result, Err(Error::TensorflowError(13))));
}

#[test]
fn stray_entries_are_ignored() {
    let entries = vec![
        entry("README.md", false),
        entry("bus", true),
        entry("Bus", false),
        ModelDirectory { name: None, has_saved_model: false },
        entry("boats", true),
        entry("", false),
    ];
    let registry = CaptchaRegistry::load_from_models_dir(&entries, stub).unwrap();
    assert_eq!(loaded(&registry), vec![CaptchaChallenge::Bus]);
}

#[test]
fn only_stray_entries_load_an_empty_registry() {
    let entries = vec![entry("boats", false), ModelDirectory { name: None, has_saved_model: true }];
    let registry = CaptchaRegistry::<Stub>::load_from_models_dir(&entries, |_| Err(2)).unwrap();
    assert!(loaded(&registry).is_empty());
}

#[test]
fn load_entry_registers_one_model() {
    let mut registry = CaptchaRegistry::new();
    assert!(registry.load_entry(&entry("stairs", true), &stub).is_ok());
    assert_eq!(loaded(&registry), vec![CaptchaChallenge::Stairs]);
}

#[test]
fn load_entry_leaves_the_registry_alone_when_it_fails() {
    let mut registry = CaptchaRegistry::new();
    registry.insert(CaptchaChallenge::Bus, Stub { affirmative: 0.9, negative: 0.1, runs: 0 });
    let missing = registry.load_entry(&entry("stairs", false), &stub);
    assert!(matches!(missing, Err(Error::ModelLoad(CaptchaChallenge::Stairs))));
    let stray = registry.load_entry(&entry("boats", true), &stub);
    assert!(matches!(stray, Err(Error::StrumParseError)));
    let unnamed = registry.load_entry(&ModelDirectory { name: None, has_saved_model: true }, &stub);
    assert!(matches!(unnamed, Err(Error::StrumParseError)));
    let rejected = registry.load_entry(&entry("stairs", true), &|_| Err(9));
    assert!(matches!(rejected, Err(Error::TensorflowError(9))));
    assert_eq!(loaded(&registry), vec![CaptchaChallenge::Bus]);
}

#[test]
fn merge_is_the_union() {
    let mut left = CaptchaRegistry::load_from_models_dir(
        &vec![entry("bus", true), entry("cars", true)],
        stub,
    )
    .unwrap();
    let right = CaptchaRegistry::load_from_models_dir(
        &vec![entry("taxis", true), entry("bridges", true)],
        stub,
    )
    .unwrap();
    left.merge(right);
    assert_eq!(
        loaded(&left),
        vec![
            CaptchaChallenge::Bridges,
            CaptchaChallenge::Cars,
            CaptchaChallenge::Bus,
            CaptchaChallenge::Taxis
        ]
    );
}

#[test]
fn merge_in_either_order_loads_the_same_challenges() {
    let part = |names: &[&str]| {
        let entries: Vec<ModelDirectory> = names.iter().map(|n| entry(n, true)).collect();
        CaptchaRegistry::load_from_models_dir(&entries, stub).unwrap()
    };
    let mut ab = part(&["bus", "cars"]);
    ab.merge(part(&["statues"]));
    let mut ba = part(&["statues"]);
    ba.merge(part(&["bus", "cars"]));
    let whole = part(&["bus", "cars", "statues"]);
    assert_eq!(loaded(&ab), loaded(&ba));
    assert_eq!(loaded(&ab), loaded(&whole));
}

#[test]
fn merge_keeps_the_model_of_the_other_side() {
    let mut left = CaptchaRegistry::new();
    left.insert(CaptchaChallenge::Bus, Stub { affirmative: 0.2, negative: 0.8, runs: 0 });
    let mut right = CaptchaRegistry::new();
    right.insert(CaptchaChallenge::Bus, Stub { affirmative: 0.9, negative: 0.1, runs: 0 });
    left.merge(right);
    let prediction = left.predict(&CaptchaChallenge::Bus, Vec::new(), run).unwrap();
    assert_eq!(prediction, Prediction::new(0.9f32.to_bits(), 0.1f32.to_bits()));
}

#[test]
fn predict_for_an_unregistered_challenge_is_an_error() {
    let registry = CaptchaRegistry::load_from_models_dir(&vec![entry("bus", true)], stub).unwrap();
    let result = registry.predict(&CaptchaChallenge::Taxis, b"x".to_vec(), |_: &mut Stub, _| {
        panic!("no model to run")
    });
    assert!(matches!(result, Err(Error::CategoryNotLoaded(CaptchaChallenge::Taxis))));
}

#[test]
fn predict_twice_gives_the_same_answer() {
    let registry = CaptchaRegistry::load_from_models_dir(&vec![entry("bus", true)], stub).unwrap();
    let first = registry.predict(&CaptchaChallenge::Bus, b"image".to_vec(), run).unwrap();
    let second = registry.predict(&CaptchaChallenge::Bus, b"image".to_vec(), run).unwrap();
    assert_eq!(first, second);
}

#[test]
fn predict_hands_the_image_to_the_model() {
    let registry = CaptchaRegistry::load_from_models_dir(&vec![entry("bus", true)], stub).unwrap();
    let result = registry.predict(&CaptchaChallenge::Bus, vec![1, 2, 3], |_: &mut Stub, image| {
        Ok((image.len() as u32, image[0] as u32))
    });
    assert_eq!(result.unwrap(), Prediction::new(3, 1));
}

#[test]
fn a_failed_run_is_reported_and_the_model_stays_usable() {
    let registry = CaptchaRegistry::load_from_models_dir(&vec![entry("bus", true)], stub).unwrap();
    let failed = registry.predict(&CaptchaChallenge::Bus, Vec::new(), |_: &mut Stub, _| Err(13));
    assert!(matches!(failed, Err(Error::TensorflowError(13))));
    let again = registry.predict(&CaptchaChallenge::Bus, Vec::new(), run);
    assert!(again.is_ok());
}

#[test]
fn runs_of_one_model_see_each_other() {
    let registry = CaptchaRegistry::load_from_models_dir(&vec![entry("bus", true)], stub).unwrap();
    for _ in 0..3 {
        registry.predict(&CaptchaChallenge::Bus, Vec::new(), run).unwrap();
    }
    let counted = registry.predict(&CaptchaChallenge::Bus, Vec::new(), |m: &mut Stub, _| {
        Ok((m.runs, 0))
    });
    assert_eq!(counted.unwrap().affirmative_confidence(), 3);
}

#[test]
fn a_loaded_bus_model_answers_affirmatively() {
    let mut registry = CaptchaRegistry::new();
    registry.insert(CaptchaChallenge::Bus, Stub { affirmative: 0.9, negative: 0.1, runs: 0 });
    let prediction = registry.predict(&CaptchaChallenge::Bus, b"anything".to_vec(), run).unwrap();
    assert_eq!(f32::from_bits(prediction.affirmative_confidence()), 0.9);
    assert_eq!(f32::from_bits(prediction.negative_confidence()), 0.1);
    assert!(prediction.is_mainly_affirmative());
}

#[test]
fn a_new_registry_has_nothing_loaded() {
    let registry = CaptchaRegistry::<Stub>::new();
    assert!(loaded(&registry).is_empty());
    assert!(!registry.is_loaded(&CaptchaChallenge::Bus));
}

#[test]
fn insert_replaces_the_model_of_a_challenge() {
    let mut registry = CaptchaRegistry::new();
    registry.insert(CaptchaChallenge::Bus, Stub { affirmative: 0.2, negative: 0.8, runs: 0 });
    registry.insert(CaptchaChallenge::Bus, Stub { affirmative: 0.9, negative: 0.1, runs: 0 });
    assert_eq!(loaded(&registry), vec![CaptchaChallenge::Bus]);
    let prediction = registry.predict(&CaptchaChallenge::Bus, Vec::new(), run).unwrap();
    assert_eq!(prediction, Prediction::new(0.9f32.to_bits(), 0.1f32.to_bits()));
}

#[test]
fn model_directories_are_told_by_their_names() {
    assert!(entry("bus", false).is_model_directory());
    assert!(entry("traffic_lights", true).is_model_directory());
    assert!(!entry("Traffic_Lights", true).is_model_directory());
    assert!(!entry("saved_model.pb", true).is_model_directory());
    assert!(!ModelDirectory { name: None, has_saved_model: true }.is_model_directory());
}

#[test]
fn errors_convert_from_what_the_system_reports() {
    let io = Error::from(std::io::Error::new(std::io::ErrorKind::PermissionDenied, "models"));
    assert!(matches!(io, Error::IOError(e) if e.kind() == std::io::ErrorKind::PermissionDenied));
    let poisoned = Error::from(std::sync::PoisonError::new(()));
    assert!(matches!(poisoned, Error::MutexError));
}
