use thasia::edits::{PageMeta, VolumeMeta};
use thasia::web::web_volume;

#[test]
fn web_volume_uses_image_urls() {
    let volume = VolumeMeta {
        volume_num: 2,
        source_volume_num: 5,
        pages: vec![PageMeta { volume_num: 2, page_index: 0, path: "/s/my page.jpg".into(), file_name: "my page.jpg".into() }],
    };
    let web = web_volume(&volume);
    assert_eq!((web.volume_num, web.source_volume_num), (2, 5));
    assert_eq!(web.pages.len(), 1);
    assert_eq!(web.pages[0].url, "thasia://image?path=%2Fs%2Fmy%20page.jpg");
    assert_eq!(web.pages[0].file_name, "my page.jpg");
    assert_eq!(web.pages[0].page_index, 0);
}
