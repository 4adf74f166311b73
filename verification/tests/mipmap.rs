use myth_image::mipmap::{MipmapAction, MipmapFeature};

fn actions(requests: usize) -> Vec<MipmapAction> {
    let feature = MipmapFeature::new("generator");
    let mut pending: Vec<usize> = (0..requests).collect();
    let mut batch = feature.extract_and_prepare(&mut pending);
    assert_eq!(batch.requests().len(), requests);
    let mut actions = Vec::new();
    while let Some(action) = batch.next_action() {
        actions.push(action);
    }
    assert_eq!(batch.next_action(), None);
    actions
}

#[test]
fn an_empty_batch_does_nothing() {
    assert_eq!(actions(0), vec![]);
}

#[test]
fn a_batch_submits_before_it_completes() {
    assert_eq!(
        actions(2),
        vec![
            MipmapAction::CreateEncoder,
            MipmapAction::EnsurePipeline(0),
            MipmapAction::Generate(0),
            MipmapAction::EnsurePipeline(1),
            MipmapAction::Generate(1),
            MipmapAction::Submit,
            MipmapAction::MarkComplete(0),
            MipmapAction::MarkComplete(1),
        ]
    );
}

#[test]
fn every_request_is_generated_and_completed_once() {
    let actions = actions(5);
    assert_eq!(actions.len(), 17);
    let submit = actions.iter().position(|a| *a == MipmapAction::Submit).unwrap();
    for request in 0..5 {
        let find = |wanted: MipmapAction| {
            let found: Vec<usize> = (0..17).filter(|k| actions[*k] == wanted).collect();
            assert_eq!(found.len(), 1);
            found[0]
        };
        let pipeline = find(MipmapAction::EnsurePipeline(request));
        let generate = find(MipmapAction::Generate(request));
        let complete = find(MipmapAction::MarkComplete(request));
        assert!(pipeline < generate && generate < submit && submit < complete);
    }
}

#[test]
fn the_generator_is_kept() {
    let mut feature = MipmapFeature::new(3);
    assert_eq!(*feature.generator(), 3);
    *feature.generator_mut() += 1;
    assert_eq!(*feature.generator(), 4);
}

#[test]
fn a_second_batch_finds_nothing_pending() {
    let feature = MipmapFeature::new("generator");
    let mut pending = vec!["sky", "water"];
    let mut first = feature.extract_and_prepare(&mut pending);
    assert_eq!(first.requests(), ["sky", "water"]);
    assert!(pending.is_empty());
    assert_eq!(first.next_action(), Some(MipmapAction::CreateEncoder));

    let mut second = feature.extract_and_prepare(&mut pending);
    assert!(second.requests().is_empty());
    assert_eq!(second.next_action(), None);
    assert!(pending.is_empty());
}

#[test]
fn each_request_is_in_one_batch() {
    let feature = MipmapFeature::new("generator");
    let mut pending = vec![1, 2];
    let first = feature.extract_and_prepare(&mut pending);
    pending.push(3);
    let second = feature.extract_and_prepare(&mut pending);
    assert_eq!(first.requests(), [1, 2]);
    assert_eq!(second.requests(), [3]);
    assert!(pending.is_empty());
}
