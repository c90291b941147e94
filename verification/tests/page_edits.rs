use thasia::edits::{
    add_custom_page, included_count, toggle_excluded, default_volume_edits, page_file_name, page_path, PageEditEntry, PageEditSource, PageMeta,
    VolumeEdit, VolumeMeta,
};
use thasia::error::ConvertError;
use thasia::resolve::{
    custom_image_paths, resolve_edit_pages, scan_map, validate_custom_image, CustomImageFacts, FileFacts,
    ResolvedPage, MAX_CUSTOM_IMAGE_BYTES,
};

fn page(volume_num: u32, page_index: u32, path: &str, file_name: &str) -> PageMeta {
    PageMeta { volume_num, page_index, path: path.into(), file_name: file_name.into() }
}

fn volumes() -> Vec<VolumeMeta> {
    vec![
        VolumeMeta {
            volume_num: 1,
            source_volume_num: 3,
            pages: vec![page(1, 0, "/s/a/01.jpg", "01.jpg"), page(1, 1, "/s/a/02.jpg", "02.jpg")],
        },
        VolumeMeta {
            volume_num: 2,
            source_volume_num: 4,
            pages: vec![page(2, 0, "/s/b/01.png", "01.png")],
        },
    ]
}

fn original(page_index: u32, source_volume_num: Option<u32>) -> PageEditEntry {
    PageEditEntry {
        source: PageEditSource::Original { page_index, source_volume_num },
        excluded: false,
    }
}

fn custom(path: &str, excluded: bool) -> PageEditEntry {
    PageEditEntry { source: PageEditSource::Custom { path: path.into() }, excluded }
}

fn ok_facts(len: u64) -> CustomImageFacts {
    CustomImageFacts { supported: true, metadata: Ok(FileFacts { is_file: true, len }) }
}

#[test]
fn default_edits_keep_every_page_in_order() {
    let edits = default_volume_edits(&volumes());
    assert_eq!(edits.len(), 2);
    assert_eq!(edits[0].volume_num, 1);
    assert_eq!(edits[0].pages.len(), 2);
    match &edits[0].pages[1].source {
        PageEditSource::Original { page_index, source_volume_num } => {
            assert_eq!(*page_index, 1);
            assert_eq!(*source_volume_num, Some(1));
        }
        PageEditSource::Custom { .. } => panic!("expected an original page"),
    }
    assert!(!edits[0].pages[1].excluded);
    assert_eq!(edits[1].pages.len(), 1);
}

#[test]
fn page_lookup_uses_scan_index() {
    let volumes = volumes();
    assert_eq!(page_path(&volumes, 1, &original(1, Some(1))), Some("/s/a/02.jpg".to_string()));
    assert_eq!(page_file_name(&volumes, 1, &original(0, Some(2))), Some("01.png".to_string()));
    assert_eq!(page_path(&volumes, 2, &original(0, None)), Some("/s/b/01.png".to_string()));
    assert_eq!(page_path(&volumes, 1, &original(5, Some(1))), None);
    assert_eq!(page_path(&volumes, 1, &original(0, Some(3))), None);
}

#[test]
fn page_lookup_with_repeated_parsed_volume() {
    let volumes = vec![
        VolumeMeta { volume_num: 1, source_volume_num: 1, pages: vec![page(1, 0, "/s/c1/01.jpg", "01.jpg")] },
        VolumeMeta { volume_num: 2, source_volume_num: 1, pages: vec![page(2, 0, "/s/c2/01.jpg", "01.jpg")] },
    ];
    let edits = default_volume_edits(&volumes);
    assert_eq!(page_path(&volumes, 2, &edits[1].pages[0]), Some("/s/c2/01.jpg".to_string()));
    assert_eq!(page_path(&volumes, 1, &edits[0].pages[0]), Some("/s/c1/01.jpg".to_string()));
}

#[test]
fn page_lookup_of_custom_entries() {
    let volumes = volumes();
    assert_eq!(page_path(&volumes, 1, &custom("/x/cover.webp", false)), Some("/x/cover.webp".to_string()));
    assert_eq!(page_file_name(&volumes, 1, &custom("/x/cover.webp", false)), Some("cover.webp".to_string()));
    assert_eq!(page_file_name(&volumes, 1, &custom("/", false)), None);
}

#[test]
fn resolve_follows_edit_order_and_skips_excluded() {
    let groups = scan_map(&vec![(1u32, vec![0usize, 1]), (2u32, vec![2usize])]);
    let edit = VolumeEdit {
        volume_num: 1,
        pages: vec![
            custom("/x/cover.png", false),
            original(1, None),
            PageEditEntry { source: PageEditSource::Original { page_index: 0, source_volume_num: Some(1) }, excluded: true },
            original(0, Some(2)),
            original(7, Some(2)),
            original(0, Some(9)),
            custom("/x/dropped.png", true),
        ],
    };
    assert_eq!(custom_image_paths(&edit), vec!["/x/cover.png".to_string()]);
    let pages = resolve_edit_pages(&edit, &groups, &vec![ok_facts(10)]).expect("resolves");
    assert_eq!(pages.len(), 3);
    match &pages[0] {
        ResolvedPage::Custom { path, relative_path, volume_num, is_cover } => {
            assert_eq!(path, "/x/cover.png");
            assert_eq!(relative_path, "cover.png");
            assert_eq!(*volume_num, 1);
            assert!(*is_cover);
        }
        ResolvedPage::Scanned { .. } => panic!("expected the custom cover"),
    }
    assert!(matches!(pages[1], ResolvedPage::Scanned { image: 1 }));
    assert!(matches!(pages[2], ResolvedPage::Scanned { image: 2 }));
}

#[test]
fn resolve_uses_last_group_with_a_number() {
    let groups = scan_map(&vec![(1u32, vec![0usize]), (1u32, vec![1usize, 2, 3])]);
    assert_eq!(groups.len(), 1);
    let edit = VolumeEdit { volume_num: 1, pages: vec![original(2, None)] };
    let pages = resolve_edit_pages(&edit, &groups, &vec![]).unwrap();
    assert!(matches!(pages[0], ResolvedPage::Scanned { image: 3 }));
}

#[test]
fn custom_page_after_scans_is_not_cover() {
    let groups = scan_map(&vec![(1u32, vec![0usize])]);
    let edit = VolumeEdit { volume_num: 1, pages: vec![original(0, None), custom("/x/end.png", false)] };
    let pages = resolve_edit_pages(&edit, &groups, &vec![ok_facts(1)]).unwrap();
    assert!(matches!(pages[1], ResolvedPage::Custom { is_cover: false, .. }));
}

#[test]
fn first_refused_custom_image_stops_resolution() {
    let groups = scan_map(&vec![(1u32, vec![0usize])]);
    let edit = VolumeEdit {
        volume_num: 1,
        pages: vec![custom("/x/a.bmp", false), custom("/x/b.png", false)],
    };
    let facts = vec![
        CustomImageFacts { supported: false, metadata: Ok(FileFacts { is_file: true, len: 1 }) },
        CustomImageFacts { supported: true, metadata: Err("gone".into()) },
    ];
    match resolve_edit_pages(&edit, &groups, &facts) {
        Err(ConvertError::UnsupportedCustomImage { path }) => assert_eq!(path, "/x/a.bmp"),
        other => panic!("unexpected {other:?}"),
    }
}

#[test]
fn custom_image_refusals_in_order() {
    let path = "/x/p.png".to_string();
    let unsupported = CustomImageFacts { supported: false, metadata: Err("ignored".into()) };
    assert!(matches!(validate_custom_image(&path, &unsupported), Err(ConvertError::UnsupportedCustomImage { .. })));
    let unreadable = CustomImageFacts { supported: true, metadata: Err("permission denied".into()) };
    match validate_custom_image(&path, &unreadable) {
        Err(ConvertError::CustomImageMetadata { path: p, message }) => {
            assert_eq!(p, path);
            assert_eq!(message, "permission denied");
        }
        other => panic!("unexpected {other:?}"),
    }
    let dir = CustomImageFacts { supported: true, metadata: Ok(FileFacts { is_file: false, len: 0 }) };
    assert!(matches!(validate_custom_image(&path, &dir), Err(ConvertError::CustomImageNotFile { .. })));
    let big = ok_facts(MAX_CUSTOM_IMAGE_BYTES + 1);
    match validate_custom_image(&path, &big) {
        Err(ConvertError::CustomImageTooLarge { bytes, .. }) => assert_eq!(bytes, 536_870_913),
        other => panic!("unexpected {other:?}"),
    }
    assert!(validate_custom_image(&path, &ok_facts(MAX_CUSTOM_IMAGE_BYTES)).is_ok());
}

#[test]
fn default_edit_resolves_to_scanned_pages() {
    let volumes = volumes();
    let groups = scan_map(&vec![(1u32, vec![4usize, 2]), (2u32, vec![3usize])]);
    let edits = default_volume_edits(&volumes);
    let pages = resolve_edit_pages(&edits[0], &groups, &vec![]).unwrap();
    assert_eq!(pages.len(), 2);
    assert!(matches!(pages[0], ResolvedPage::Scanned { image: 4 }));
    assert!(matches!(pages[1], ResolvedPage::Scanned { image: 2 }));
    let second = resolve_edit_pages(&edits[1], &groups, &vec![]).unwrap();
    assert!(matches!(second[..], [ResolvedPage::Scanned { image: 3 }]));
}

#[test]
fn editor_toggles_and_adds_pages() {
    let mut edits = default_volume_edits(&volumes());
    assert_eq!(included_count(&edits[0]), 2);
    toggle_excluded(&mut edits, 0, 1);
    assert!(edits[0].pages[1].excluded);
    assert_eq!(included_count(&edits[0]), 1);
    toggle_excluded(&mut edits, 0, 1);
    assert!(!edits[0].pages[1].excluded);
    toggle_excluded(&mut edits, 5, 0);
    toggle_excluded(&mut edits, 0, 9);
    assert_eq!(included_count(&edits[0]), 2);
    add_custom_page(&mut edits, 1, "/x/extra.png".into());
    assert_eq!(edits[1].pages.len(), 2);
    assert!(edits[1].pages[1].source.is_custom());
    assert!(!edits[1].pages[1].excluded);
    add_custom_page(&mut edits, 7, "/x/none.png".into());
    assert_eq!(edits.len(), 2);
}
