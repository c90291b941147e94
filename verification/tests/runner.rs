use thasia::error::ConvertError;
use thasia::options::{
    BundleMode, ColorEnhanceMode, ConvertOptions, Direction, ImageFormat, OutputFormat, SharpenMode,
};
use thasia::options::{encode_options, PackageSelection};
use thasia::run::{conversion_inputs, output_root};

fn options() -> ConvertOptions {
    ConvertOptions {
        output_dir: "/tmp/out".into(),
        output_name: "Series 01".into(),
        create_directory: true,
        image_format: ImageFormat::Avif,
        max_width: Some(1920),
        force_reencode: true,
        clean_tones: true,
        color_enhance: ColorEnhanceMode::Balanced,
        sharpen: SharpenMode::Mild,
        auto_crop: false,
        crop_padding: 0,
        moire_reduction: false,
        eink_dither: false,
        split_double_page: false,
        output_format: OutputFormat::Cbz,
        direction: Direction::Ltr,
        bundle: BundleMode::Auto,
        volume_separator: " - ".into(),
        hide_single_volume: false,
    }
}

#[test]
fn output_root_creates_sanitized_child_directory() {
    let options = options();
    let root = output_root(&options, Ok(options.output_name.clone())).expect("valid output root");
    assert!(root.ends_with("Series 01"));
    assert_eq!(root, "/tmp/out/Series 01");
}

#[test]
fn output_root_rejects_invalid_child_directory_name() {
    let mut options = options();
    options.output_name = "Series: 01".into();
    let refused = Err("unsafe character ':' in \"Series: 01\"".to_string());
    assert!(output_root(&options, refused).is_err());
}

#[test]
fn output_root_uses_output_dir_directly_when_disabled() {
    let mut options = options();
    options.create_directory = false;
    let root = output_root(&options, Err("not consulted".into())).expect("valid output root");
    assert_eq!(root, "/tmp/out");
}

#[test]
fn output_root_refusal_is_invalid_output_name() {
    let options = options();
    match output_root(&options, Err("bad".into())) {
        Err(ConvertError::InvalidOutputName(message)) => assert_eq!(message, "bad"),
        other => panic!("unexpected {other:?}"),
    }
}

#[test]
fn output_root_joins_without_doubling_separator() {
    let mut options = options();
    options.output_dir = "/tmp/out/".into();
    assert_eq!(output_root(&options, Ok("Vol".into())).unwrap(), "/tmp/out/Vol");
}

#[test]
fn encode_options_preserve_frontend_transform_contract() {
    let encode = encode_options(&options());
    assert_eq!(encode.format, ImageFormat::Avif);
    assert!(encode.force_reencode);
    assert_eq!(encode.transform.max_width, Some(1920));
    assert!(encode.transform.clean_tones);
    assert_eq!(encode.transform.color_enhance, ColorEnhanceMode::Balanced);
    assert_eq!(encode.transform.sharpen, SharpenMode::Mild);
}

#[test]
fn package_selection_copies_format_and_direction() {
    let mut options = options();
    options.output_format = OutputFormat::Epub;
    options.direction = Direction::Rtl;
    let selection = PackageSelection::from(&options);
    assert_eq!(selection.output_format, OutputFormat::Epub);
    assert_eq!(selection.direction, Direction::Rtl);
}

#[test]
fn conversion_inputs_report_the_first_missing_part() {
    assert!(matches!(conversion_inputs::<u8, u8>(None, None), Err(ConvertError::MissingScanResult)));
    assert!(matches!(conversion_inputs::<u8, u8>(Some(1), None), Err(ConvertError::MissingSource)));
    assert!(matches!(conversion_inputs(Some(1u8), Some(2u8)), Ok((1, 2))));
}
