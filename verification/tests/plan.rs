use thasia::edits::{PageEditEntry, PageEditSource, VolumeEdit};
use thasia::options::{ColorEnhanceMode, ConvertOptions, ImageFormat, OutputFormat, SharpenMode};
use thasia::pipeline_plan::{build, PipelineCostClass, PipelinePlan};

fn entry(custom: bool, excluded: bool) -> PageEditEntry {
    let source = if custom {
        PageEditSource::Custom { path: "/x/extra.png".into() }
    } else {
        PageEditSource::Original { page_index: 0, source_volume_num: None }
    };
    PageEditEntry { source, excluded }
}

fn edits() -> Vec<VolumeEdit> {
    vec![
        VolumeEdit { volume_num: 1, pages: vec![entry(false, false), entry(false, true), entry(true, false)] },
        VolumeEdit { volume_num: 2, pages: vec![entry(true, true), entry(false, false)] },
    ]
}

fn step_enabled(plan: &PipelinePlan, stage: &str, step: &str) -> bool {
    let stage = plan.stages.iter().find(|s| s.id == stage).expect("stage");
    stage.steps.iter().find(|s| s.id == step).expect("step").enabled
}

#[test]
fn default_options_plan() {
    let options = ConvertOptions::default();
    assert_eq!(options.output_name, "output");
    assert_eq!(options.volume_separator, " - ");
    let plan = build(options, edits());
    assert_eq!(plan.total_pages, 5);
    assert_eq!(plan.excluded_pages, 2);
    assert_eq!(plan.included_pages, 3);
    assert_eq!(plan.added_pages, 1);
    assert_eq!(plan.volumes, 2);
    assert_eq!(plan.image_format, ImageFormat::Avif);
    let ids: Vec<&str> = plan.stages.iter().map(|s| s.id.as_str()).collect();
    assert_eq!(ids, vec!["input", "decode", "transform", "encode", "package"]);
    assert!(step_enabled(&plan, "decode", "passthrough"));
    assert!(!step_enabled(&plan, "transform", "resize-max-width"));
    let encode = &plan.stages[3].steps[1];
    assert_eq!(encode.label, "Encode AVIF");
    assert_eq!(encode.cost, PipelineCostClass::Expensive);
    assert_eq!(plan.stages[4].steps[0].label, "Write CBZ");
}

#[test]
fn keeping_originals_disables_decoding_and_transforms() {
    let mut options = ConvertOptions::default();
    options.image_format = ImageFormat::Original;
    options.output_format = OutputFormat::Epub;
    let plan = build(options, vec![]);
    assert_eq!(plan.total_pages, 0);
    assert!(!plan.stages[1].enabled);
    assert!(!plan.stages[2].enabled);
    assert!(plan.stages[3].enabled);
    assert!(!step_enabled(&plan, "encode", "strip-metadata"));
    assert_eq!(plan.stages[3].steps[1].label, "Keep original files");
    assert_eq!(plan.stages[3].steps[1].cost, PipelineCostClass::Medium);
    assert!(!plan.stages[3].steps[1].effects.pixels);
    assert_eq!(plan.stages[4].steps[0].label, "Write EPUB");
}

#[test]
fn transforms_follow_options() {
    let mut options = ConvertOptions::default();
    options.image_format = ImageFormat::Webp;
    options.max_width = Some(1600);
    options.color_enhance = ColorEnhanceMode::Strong;
    options.sharpen = SharpenMode::Mild;
    options.output_format = OutputFormat::Raw;
    let plan = build(options, vec![]);
    assert!(!step_enabled(&plan, "decode", "passthrough"));
    assert!(step_enabled(&plan, "transform", "resize-max-width"));
    assert!(step_enabled(&plan, "transform", "enhance-color"));
    assert!(step_enabled(&plan, "transform", "sharpen"));
    assert!(!step_enabled(&plan, "transform", "clean-scan-tones"));
    let transform = &plan.stages[2];
    assert_eq!(transform.steps[4].label, "Enhance color strongly");
    assert_eq!(transform.steps[5].label, "Sharpen mildly");
    assert_eq!(plan.stages[3].steps[1].label, "Encode WebP");
    assert_eq!(plan.stages[4].steps[0].label, "Write raw folder");
}

#[test]
fn new_conversion_uses_default_output_dir() {
    let options = ConvertOptions::for_new_conversion(&Some("/home/u/out".into()));
    assert_eq!(options.output_dir, "/home/u/out");
    assert_eq!(options.output_name, "output");
    let options = ConvertOptions::for_new_conversion(&None);
    assert_eq!(options.output_dir, "");
}
