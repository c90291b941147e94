use thasia::edits::default_volume_edits;
use thasia::resolve::{resolve_edit_pages, scan_map, ResolvedPage};
use thasia::scan::{scan_layout, ScannedImage};

fn image(path: &str, volume: Option<u32>, chapter_key: u64, page_key: u64, is_cover: bool) -> ScannedImage {
    ScannedImage { path: path.into(), volume, chapter_key, page_key, is_cover }
}

#[test]
fn groups_by_volume_and_chapter_with_covers_first() {
    let images = vec![
        image("/s/v1/c2/p1.jpg", Some(1), 2, 1, false),
        image("/s/v1/c1/p2.jpg", Some(1), 1, 2, false),
        image("/s/v1/c1/p1.jpg", Some(1), 1, 1, false),
        image("/s/v0/c1/cover.jpg", Some(0), 1, 5, true),
        image("/s/x.jpg", None, 1, 3, false),
        image("/s/v2/a.png", Some(2), 0, 0, false),
    ];
    let layout = scan_layout(&images);
    let groups: Vec<(u32, Vec<usize>)> = layout.groups.clone();
    assert_eq!(groups, vec![(1, vec![3, 2, 1, 4]), (2, vec![0]), (3, vec![5])]);
    assert_eq!(layout.volumes.len(), 3);
    let first = &layout.volumes[0];
    assert_eq!((first.volume_num, first.source_volume_num), (1, 1));
    assert_eq!(first.pages.len(), 4);
    assert_eq!(first.pages[0].path, "/s/v0/c1/cover.jpg");
    assert_eq!(first.pages[0].file_name, "cover.jpg");
    assert_eq!(first.pages[3].page_index, 3);
    assert_eq!(first.pages[3].volume_num, 1);
    assert_eq!(layout.volumes[2].source_volume_num, 2);
    assert_eq!(layout.volumes[2].volume_num, 3);
}

#[test]
fn equal_page_keys_keep_scan_order() {
    let images = vec![
        image("/b.jpg", Some(1), 0, 4, false),
        image("/a.jpg", Some(1), 0, 4, false),
    ];
    let layout = scan_layout(&images);
    assert_eq!(layout.groups, vec![(1, vec![0, 1])]);
}

#[test]
fn empty_scan_has_no_groups() {
    let layout = scan_layout(&vec![]);
    assert!(layout.groups.is_empty());
    assert!(layout.volumes.is_empty());
}

#[test]
fn untouched_edits_convert_the_scanned_images() {
    let images = vec![
        image("/s/v1/c1/p2.jpg", Some(1), 1, 2, false),
        image("/s/v1/c1/p1.jpg", Some(1), 1, 1, false),
        image("/s/v1/c2/p1.jpg", Some(1), 2, 1, false),
    ];
    let layout = scan_layout(&images);
    let edits = default_volume_edits(&layout.volumes);
    let map = scan_map(&layout.groups);
    assert_eq!(edits.len(), layout.groups.len());
    for (edit, (_, members)) in edits.iter().zip(layout.groups.iter()) {
        let pages = resolve_edit_pages(edit, &map, &vec![]).unwrap();
        let converted: Vec<usize> = pages
            .iter()
            .map(|p| match p {
                ResolvedPage::Scanned { image } => *image,
                ResolvedPage::Custom { .. } => panic!("no custom page expected"),
            })
            .collect();
        assert_eq!(&converted, members);
    }
    assert_eq!(layout.groups, vec![(1, vec![1, 0]), (2, vec![2])]);
}
