use thasia::error::ConvertError;
use thasia::reorder::{PageReorder, VolumeAssembly};

#[test]
fn pages_are_handed_on_in_page_order() {
    let mut reorder: PageReorder<&str> = PageReorder::new();
    assert!(reorder.accept(2, "c").is_empty());
    assert!(reorder.accept(1, "b").is_empty());
    assert_eq!(reorder.accept(0, "a"), vec!["a", "b", "c"]);
    assert_eq!(reorder.accept(3, "d"), vec!["d"]);
    assert!(reorder.accept(5, "f").is_empty());
    assert_eq!(reorder.into_waiting(), vec!["f"]);
}

#[test]
fn a_repeated_index_replaces_the_waiting_page() {
    let mut reorder: PageReorder<&str> = PageReorder::new();
    assert!(reorder.accept(1, "old").is_empty());
    assert!(reorder.accept(1, "new").is_empty());
    assert_eq!(reorder.accept(0, "first"), vec!["first", "new"]);
}

#[test]
fn a_late_duplicate_waits_for_the_end() {
    let mut reorder: PageReorder<&str> = PageReorder::new();
    assert_eq!(reorder.accept(0, "a"), vec!["a"]);
    assert!(reorder.accept(0, "again").is_empty());
    assert!(reorder.accept(4, "e").is_empty());
    assert_eq!(reorder.into_waiting(), vec!["again", "e"]);
}

#[test]
fn complete_volume_finishes_with_leftovers_in_order() {
    let mut assembly: VolumeAssembly<u32> = VolumeAssembly::new(7, 3);
    assert!(assembly.on_page(false, 2, 20).unwrap().is_empty());
    assert!(assembly.on_page(false, 1, 10).unwrap().is_empty());
    assert!(assembly.on_page(false, 5, 50).unwrap().is_empty());
    assert_eq!(assembly.finish(false).unwrap(), vec![10, 20, 50]);
}

#[test]
fn short_volume_is_incomplete() {
    let mut assembly: VolumeAssembly<u32> = VolumeAssembly::new(4, 3);
    assert_eq!(assembly.on_page(false, 0, 0).unwrap(), vec![0]);
    match assembly.finish(false) {
        Err(ConvertError::IncompleteVolume { volume_num, expected, actual }) => {
            assert_eq!((volume_num, expected, actual), (4, 3, 1));
        }
        other => panic!("unexpected {other:?}"),
    }
}

#[test]
fn cancellation_wins() {
    let mut assembly: VolumeAssembly<u32> = VolumeAssembly::new(1, 1);
    assert!(matches!(assembly.on_page(true, 0, 0), Err(ConvertError::Cancelled)));
    assert!(matches!(assembly.finish(true), Err(ConvertError::Cancelled)));
}
