use acfunlive_neotool::audio::AudioSourceManager;
use acfunlive_neotool::error::Error;
use acfunlive_neotool::xunfei;

#[test]
fn numbers_are_issued_from_one_upwards() {
    let mut manager = AudioSourceManager::new();
    assert_eq!(manager.last_id(), 0);
    assert_eq!(manager.add(vec![1, 2, 3]), 1);
    assert_eq!(manager.add(vec![4]), 2);
    assert_eq!(manager.add(Vec::new()), 3);
    assert_eq!(manager.last_id(), 3);
}

#[test]
fn a_source_leaves_when_it_is_fetched() {
    let mut manager = AudioSourceManager::default();
    let first = manager.add(vec![1, 2, 3]);
    let second = manager.add(vec![4]);
    assert_eq!(manager.get_and_remove(second), Some(vec![4]));
    assert_eq!(manager.get_and_remove(second), None);
    assert_eq!(manager.get_and_remove(first), Some(vec![1, 2, 3]));
    assert_eq!(manager.get_and_remove(first), None);
    assert_eq!(manager.get_and_remove(0), None);
    assert_eq!(manager.get_and_remove(99), None);
}

#[test]
fn a_number_is_not_issued_again_after_its_source_left() {
    let mut manager = AudioSourceManager::new();
    let first = manager.add(vec![1]);
    assert_eq!(manager.get_and_remove(first), Some(vec![1]));
    let second = manager.add(vec![2]);
    assert_eq!(second, 2);
    assert_eq!(manager.get_and_remove(first), None);
    assert_eq!(manager.get_and_remove(second), Some(vec![2]));
}

#[test]
fn signing_failures_have_their_kinds() {
    let no_url = xunfei::authorization("nowhere", "SECRET", "KEY", 0).unwrap_err();
    assert_eq!(Error::from_signing(&no_url), Error::Url);
    let no_date = xunfei::authorization("wss://example.com/", "SECRET", "KEY", i64::MIN).unwrap_err();
    assert_eq!(Error::from_signing(&no_date), Error::Format);
}
