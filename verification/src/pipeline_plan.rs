//! The pipeline preview: which processing stages and steps a conversion will run.
use vstd::prelude::*;
use crate::edits::{PageEditEntry, VolumeEdit};
use crate::options::{ColorEnhanceMode, ConvertOptions, ImageFormat, OutputFormat, SharpenMode};

verus! {

/// Rough cost of a pipeline step.
#[derive(Clone, Copy, Debug, PartialEq, Eq, Structural)]
pub enum PipelineCostClass {
    Cheap,
    Medium,
    Expensive,
}

/// What a pipeline step may change about a page.
#[derive(Clone, Copy, Debug, PartialEq, Eq, Structural)]
pub struct PipelineStepEffects {
    pub dimensions: bool,
    pub pixels: bool,
    pub alpha: bool,
    pub metadata: bool,
    pub passthrough: bool,
}

/// One step of a stage.
#[derive(Clone, Debug)]
pub struct PipelineStep {
    pub id: String,
    pub label: String,
    pub category: String,
    pub enabled: bool,
    pub default_enabled: bool,
    pub exclusive_group: Option<String>,
    pub conflicts: Vec<String>,
    pub effects: PipelineStepEffects,
    pub cost: PipelineCostClass,
}

/// One stage of the pipeline.
#[derive(Clone, Debug)]
pub struct PipelineStage {
    pub id: String,
    pub label: String,
    pub enabled: bool,
    pub steps: Vec<PipelineStep>,
}

/// The preview shown before a conversion starts.
#[derive(Clone, Debug)]
pub struct PipelinePlan {
    pub total_pages: u32,
    pub included_pages: u32,
    pub excluded_pages: u32,
    pub added_pages: u32,
    pub volumes: u32,
    pub image_format: ImageFormat,
    pub output_format: OutputFormat,
    pub stages: Vec<PipelineStage>,
}

/// Mathematical content of a [`PipelineStep`].
pub struct StepView {
    pub id: Seq<char>,
    pub label: Seq<char>,
    pub category: Seq<char>,
    pub enabled: bool,
    pub default_enabled: bool,
    pub exclusive_group: Option<Seq<char>>,
    pub conflicts: Seq<Seq<char>>,
    pub effects: PipelineStepEffects,
    pub cost: PipelineCostClass,
}

/// Mathematical content of a [`PipelineStage`].
pub struct StageView {
    pub id: Seq<char>,
    pub label: Seq<char>,
    pub enabled: bool,
    pub steps: Seq<StepView>,
}

impl View for PipelineStep {
    type V = StepView;

    open spec fn view(&self) -> StepView {
        StepView {
            id: self.id@,
            label: self.label@,
            category: self.category@,
            enabled: self.enabled,
            default_enabled: self.default_enabled,
            exclusive_group: match self.exclusive_group {
                Some(g) => Some(g@),
                None => None,
            },
            conflicts: self.conflicts@.map_values(|c: String| c@),
            effects: self.effects,
            cost: self.cost,
        }
    }
}

impl View for PipelineStage {
    type V = StageView;

    open spec fn view(&self) -> StageView {
        StageView {
            id: self.id@,
            label: self.label@,
            enabled: self.enabled,
            steps: self.steps@.map_values(|s: PipelineStep| s@),
        }
    }
}

/// The stages of a plan, viewed.
pub open spec fn stages_view(stages: Seq<PipelineStage>) -> Seq<StageView> {
    stages.map_values(|s: PipelineStage| s@)
}

pub open spec fn no_effects() -> PipelineStepEffects {
    PipelineStepEffects { dimensions: false, pixels: false, alpha: false, metadata: false, passthrough: false }
}

/// A step as the plan describes it: no exclusive group and no conflicts.
pub open spec fn step_spec(
    id: Seq<char>,
    label: Seq<char>,
    category: Seq<char>,
    enabled: bool,
    default_enabled: bool,
    cost: PipelineCostClass,
    effects: PipelineStepEffects,
) -> StepView {
    StepView {
        id,
        label,
        category,
        enabled,
        default_enabled,
        exclusive_group: None,
        conflicts: Seq::empty(),
        effects,
        cost,
    }
}

/// Whether the chosen image format re-encodes pages at all.
pub open spec fn image_reencoded(options: ConvertOptions) -> bool {
    options.image_format != ImageFormat::Original
}

/// Whether pages can be copied through untouched: a re-encoding format with
/// no forced re-encode and no transform selected.
pub open spec fn passthrough_possible(options: ConvertOptions) -> bool {
    &&& image_reencoded(options)
    &&& !options.force_reencode
    &&& options.max_width is None
    &&& !options.clean_tones
    &&& options.color_enhance == ColorEnhanceMode::Off
    &&& options.sharpen == SharpenMode::Off
}

pub open spec fn spec_encode_label(format: ImageFormat) -> Seq<char> {
    match format {
        ImageFormat::Avif => "Encode AVIF"@,
        ImageFormat::Webp => "Encode WebP"@,
        ImageFormat::Original => "Keep original files"@,
    }
}

pub open spec fn spec_package_label(format: OutputFormat) -> Seq<char> {
    match format {
        OutputFormat::Cbz => "Write CBZ"@,
        OutputFormat::Epub => "Write EPUB"@,
        OutputFormat::Raw => "Write raw folder"@,
    }
}

pub open spec fn spec_color_enhance_label(mode: ColorEnhanceMode) -> Seq<char> {
    match mode {
        ColorEnhanceMode::Off => "Enhance color"@,
        ColorEnhanceMode::Mild => "Enhance color mildly"@,
        ColorEnhanceMode::Balanced => "Enhance color balanced"@,
        ColorEnhanceMode::Strong => "Enhance color strongly"@,
    }
}

pub open spec fn spec_sharpen_label(mode: SharpenMode) -> Seq<char> {
    match mode {
        SharpenMode::Off => "Sharpen"@,
        SharpenMode::Mild => "Sharpen mildly"@,
    }
}

pub open spec fn input_stage_spec() -> StageView {
    StageView {
        id: "input"@,
        label: "Input"@,
        enabled: true,
        steps: seq![
            step_spec("read-source"@, "Read selected pages"@, "source"@, true, true,
                PipelineCostClass::Cheap, no_effects()),
        ],
    }
}

pub open spec fn decode_stage_spec(options: ConvertOptions) -> StageView {
    let r = image_reencoded(options);
    StageView {
        id: "decode"@,
        label: "Decode"@,
        enabled: r,
        steps: seq![
            step_spec("passthrough"@, "Pass through matching files"@, "decode"@,
                passthrough_possible(options), true, PipelineCostClass::Cheap,
                PipelineStepEffects { passthrough: true, ..no_effects() }),
            step_spec("decode-image"@, "Decode when needed"@, "decode"@, r, true,
                PipelineCostClass::Medium, PipelineStepEffects { pixels: true, ..no_effects() }),
        ],
    }
}

pub open spec fn transform_stage_spec(options: ConvertOptions) -> StageView {
    let r = image_reencoded(options);
    let reshaping = PipelineStepEffects { pixels: true, passthrough: true, ..no_effects() };
    StageView {
        id: "transform"@,
        label: "Transform"@,
        enabled: r,
        steps: seq![
            step_spec("normalize-color"@, "Normalize color buffers"@, "cleanup"@, r, true,
                PipelineCostClass::Cheap, PipelineStepEffects { pixels: true, ..no_effects() }),
            step_spec("drop-opaque-alpha"@, "Drop unused alpha"@, "cleanup"@, r, true,
                PipelineCostClass::Cheap, PipelineStepEffects { alpha: true, ..no_effects() }),
            step_spec("resize-max-width"@, "Downscale max width"@, "geometry"@,
                r && options.max_width is Some, false, PipelineCostClass::Medium,
                PipelineStepEffects { dimensions: true, pixels: true, passthrough: true, ..no_effects() }),
            step_spec("clean-scan-tones"@, "Clean scan tones"@, "cleanup"@,
                r && options.clean_tones, false, PipelineCostClass::Medium, reshaping),
            step_spec("enhance-color"@, spec_color_enhance_label(options.color_enhance), "enhance"@,
                r && options.color_enhance != ColorEnhanceMode::Off, false,
                PipelineCostClass::Medium, reshaping),
            step_spec("sharpen"@, spec_sharpen_label(options.sharpen), "enhance"@,
                r && options.sharpen != SharpenMode::Off, false, PipelineCostClass::Medium,
                reshaping),
        ],
    }
}

pub open spec fn encode_cost(format: ImageFormat) -> PipelineCostClass {
    if format == ImageFormat::Avif {
        PipelineCostClass::Expensive
    } else {
        PipelineCostClass::Medium
    }
}

pub open spec fn encode_stage_spec(options: ConvertOptions) -> StageView {
    let r = image_reencoded(options);
    StageView {
        id: "encode"@,
        label: "Encode"@,
        enabled: true,
        steps: seq![
            step_spec("strip-metadata"@, "Strip metadata through encode"@, "encode"@, r, true,
                PipelineCostClass::Cheap, PipelineStepEffects { metadata: true, ..no_effects() }),
            step_spec("encode-output"@, spec_encode_label(options.image_format), "encode"@, true,
                true, encode_cost(options.image_format),
                PipelineStepEffects { pixels: r, ..no_effects() }),
        ],
    }
}

pub open spec fn package_stage_spec(options: ConvertOptions) -> StageView {
    StageView {
        id: "package"@,
        label: "Package"@,
        enabled: true,
        steps: seq![
            step_spec("write-container"@, spec_package_label(options.output_format), "package"@,
                true, true, PipelineCostClass::Medium, no_effects()),
        ],
    }
}

/// The five stages, in order, that a plan for `options` lists.
pub open spec fn planned_stages(options: ConvertOptions) -> Seq<StageView> {
    seq![
        input_stage_spec(),
        decode_stage_spec(options),
        transform_stage_spec(options),
        encode_stage_spec(options),
        package_stage_spec(options),
    ]
}


/// Number of page entries over all edits.
pub open spec fn page_total(edits: Seq<VolumeEdit>) -> nat
    decreases edits.len(),
{
    if edits.len() == 0 {
        0
    } else {
        page_total(edits.drop_last()) + edits.last().pages@.len()
    }
}

/// Number of excluded entries in one volume's pages.
pub open spec fn excluded_in(pages: Seq<PageEditEntry>) -> nat
    decreases pages.len(),
{
    if pages.len() == 0 {
        0
    } else {
        excluded_in(pages.drop_last()) + if pages.last().excluded { 1nat } else { 0nat }
    }
}

/// Number of kept, hand-added entries in one volume's pages.
pub open spec fn added_in(pages: Seq<PageEditEntry>) -> nat
    decreases pages.len(),
{
    if pages.len() == 0 {
        0
    } else {
        added_in(pages.drop_last()) + if pages.last().is_added() { 1nat } else { 0nat }
    }
}

/// Number of excluded entries over all edits.
pub open spec fn excluded_total(edits: Seq<VolumeEdit>) -> nat
    decreases edits.len(),
{
    if edits.len() == 0 {
        0
    } else {
        excluded_total(edits.drop_last()) + excluded_in(edits.last().pages@)
    }
}

/// Number of kept, hand-added entries over all edits.
pub open spec fn added_total(edits: Seq<VolumeEdit>) -> nat
    decreases edits.len(),
{
    if edits.len() == 0 {
        0
    } else {
        added_total(edits.drop_last()) + added_in(edits.last().pages@)
    }
}

proof fn lemma_volume_counts_bounded(pages: Seq<PageEditEntry>)
    ensures
        excluded_in(pages) + added_in(pages) <= pages.len(),
    decreases pages.len(),
{
    if pages.len() > 0 {
        lemma_volume_counts_bounded(pages.drop_last());
    }
}

proof fn lemma_counts_bounded(edits: Seq<VolumeEdit>)
    ensures
        excluded_total(edits) + added_total(edits) <= page_total(edits),
    decreases edits.len(),
{
    if edits.len() > 0 {
        lemma_counts_bounded(edits.drop_last());
        lemma_volume_counts_bounded(edits.last().pages@);
    }
}

/// In every page selection, the excluded pages and the pages added by hand
/// together never outnumber all pages: so the included pages are the total
/// minus the excluded ones, and every added page is among the included.
pub proof fn law_plan_page_counts(edits: Seq<VolumeEdit>)
    ensures
        excluded_total(edits) <= page_total(edits),
        added_total(edits) <= page_total(edits) - excluded_total(edits),
{
    lemma_counts_bounded(edits);
}

/// Pages are passed through untouched only when nothing asks for a new
/// encoding: the pass-through step is off when the original files are kept,
/// when re-encoding is forced, or when any resize or image filter is chosen,
/// and on otherwise.
pub proof fn law_passthrough_step(options: ConvertOptions)
    ensures
        options.force_reencode ==> !planned_stages(options)[1].steps[0].enabled,
        options.image_format == ImageFormat::Original ==> !planned_stages(options)[1].steps[0].enabled,
        options.max_width is Some ==> !planned_stages(options)[1].steps[0].enabled,
        options.clean_tones ==> !planned_stages(options)[1].steps[0].enabled,
        options.color_enhance != ColorEnhanceMode::Off ==> !planned_stages(options)[1].steps[0].enabled,
        options.sharpen != SharpenMode::Off ==> !planned_stages(options)[1].steps[0].enabled,
        options.image_format != ImageFormat::Original && !options.force_reencode && options.max_width is None
            && !options.clean_tones && options.color_enhance == ColorEnhanceMode::Off && options.sharpen
            == SharpenMode::Off ==> planned_stages(options)[1].steps[0].enabled,
        planned_stages(options)[1].steps[0].id == "passthrough"@,
{
}

/// Decoding and transforming run exactly when the image format re-encodes;
/// input, encode and package always run; and when the pass-through step is
/// enabled, none of the optional transform steps is.
pub proof fn law_stage_enablement(options: ConvertOptions)
    ensures
        planned_stages(options)[0].enabled,
        planned_stages(options)[1].enabled == image_reencoded(options),
        planned_stages(options)[2].enabled == image_reencoded(options),
        planned_stages(options)[3].enabled,
        planned_stages(options)[4].enabled,
        planned_stages(options)[1].steps[0].enabled ==> {
            &&& !planned_stages(options)[2].steps[2].enabled
            &&& !planned_stages(options)[2].steps[3].enabled
            &&& !planned_stages(options)[2].steps[4].enabled
            &&& !planned_stages(options)[2].steps[5].enabled
        },
{
}

impl Default for PipelineStepEffects {
    fn default() -> (effects: Self)
        ensures
            effects == no_effects(),
    {
        PipelineStepEffects { dimensions: false, pixels: false, alpha: false, metadata: false, passthrough: false }
    }
}

fn encode_label(options: &ConvertOptions) -> (label: &'static str)
    ensures
        label@ == spec_encode_label(options.image_format),
{
    match options.image_format {
        ImageFormat::Avif => "Encode AVIF",
        ImageFormat::Webp => "Encode WebP",
        ImageFormat::Original => "Keep original files",
    }
}

fn package_label(options: &ConvertOptions) -> (label: &'static str)
    ensures
        label@ == spec_package_label(options.output_format),
{
    match options.output_format {
        OutputFormat::Cbz => "Write CBZ",
        OutputFormat::Epub => "Write EPUB",
        OutputFormat::Raw => "Write raw folder",
    }
}

fn color_enhance_label(mode: ColorEnhanceMode) -> (label: &'static str)
    ensures
        label@ == spec_color_enhance_label(mode),
{
    match mode {
        ColorEnhanceMode::Off => "Enhance color",
        ColorEnhanceMode::Mild => "Enhance color mildly",
        ColorEnhanceMode::Balanced => "Enhance color balanced",
        ColorEnhanceMode::Strong => "Enhance color strongly",
    }
}

fn sharpen_label(mode: SharpenMode) -> (label: &'static str)
    ensures
        label@ == spec_sharpen_label(mode),
{
    match mode {
        SharpenMode::Off => "Sharpen",
        SharpenMode::Mild => "Sharpen mildly",
    }
}

/// Builds one plan step with no exclusive group and no conflicts.
pub fn step(
    id: &str,
    label: &str,
    category: &str,
    enabled: bool,
    default_enabled: bool,
    cost: PipelineCostClass,
    effects: PipelineStepEffects,
) -> (s: PipelineStep)
    ensures
        s@ == step_spec(id@, label@, category@, enabled, default_enabled, cost, effects),
{
    let s = PipelineStep {
        id: id.to_string(),
        label: label.to_string(),
        category: category.to_string(),
        enabled,
        default_enabled,
        exclusive_group: None,
        conflicts: Vec::new(),
        effects,
        cost,
    };
    assert(s@.conflicts =~= Seq::<Seq<char>>::empty());
    s
}

fn stages(options: &ConvertOptions) -> (stages: Vec<PipelineStage>)
    ensures
        stages_view(stages@) =~~= planned_stages(*options),
{
    let reencodes = options.image_format != ImageFormat::Original;
    let input = PipelineStage {
        id: "input".to_string(),
        label: "Input".to_string(),
        enabled: true,
        steps: vec![
            step("read-source", "Read selected pages", "source", true, true,
                PipelineCostClass::Cheap, PipelineStepEffects::default()),
        ],
    };
    assert(input@.steps =~= seq![input.steps@[0]@]);
    assert(input@ =~~= input_stage_spec());
    let stages = vec![
        input,
        decode_stage(options, reencodes),
        transform_stage(options, reencodes),
        encode_stage(options, reencodes),
        package_stage(options),
    ];
    stages
}

fn decode_stage(options: &ConvertOptions, reencodes: bool) -> (stage: PipelineStage)
    requires
        reencodes == image_reencoded(*options),
    ensures
        stage@ =~~= decode_stage_spec(*options),
{
    let s0 = step(
                "passthrough",
                "Pass through matching files",
                "decode",
                reencodes && !options.force_reencode && options.max_width.is_none()
                    && !options.clean_tones && options.color_enhance == ColorEnhanceMode::Off
                    && options.sharpen == SharpenMode::Off,
                true,
                PipelineCostClass::Cheap,
                PipelineStepEffects { dimensions: false, pixels: false, alpha: false, metadata: false, passthrough: true },
            );
    let s1 = step(
                "decode-image",
                "Decode when needed",
                "decode",
                reencodes,
                true,
                PipelineCostClass::Medium,
                PipelineStepEffects { dimensions: false, pixels: true, alpha: false, metadata: false, passthrough: false },
            );
    let stage = PipelineStage {
        id: "decode".to_string(),
        label: "Decode".to_string(),
        enabled: reencodes,
        steps: vec![s0, s1],
    };
    assert(stage@.steps =~= seq![s0@, s1@]);
    assert(stage@.steps =~= decode_stage_spec(*options).steps);
    stage
}

fn transform_stage(options: &ConvertOptions, reencodes: bool) -> (stage: PipelineStage)
    requires
        reencodes == image_reencoded(*options),
    ensures
        stage@ =~~= transform_stage_spec(*options),
{
    let s0 = step(
                "normalize-color",
                "Normalize color buffers",
                "cleanup",
                reencodes,
                true,
                PipelineCostClass::Cheap,
                PipelineStepEffects { dimensions: false, pixels: true, alpha: false, metadata: false, passthrough: false },
            );
    let s1 = step(
                "drop-opaque-alpha",
                "Drop unused alpha",
                "cleanup",
                reencodes,
                true,
                PipelineCostClass::Cheap,
                PipelineStepEffects { dimensions: false, pixels: false, alpha: true, metadata: false, passthrough: false },
            );
    let s2 = step(
                "resize-max-width",
                "Downscale max width",
                "geometry",
                reencodes && options.max_width.is_some(),
                false,
                PipelineCostClass::Medium,
                PipelineStepEffects { dimensions: true, pixels: true, alpha: false, metadata: false, passthrough: true },
            );
    let s3 = step(
                "clean-scan-tones",
                "Clean scan tones",
                "cleanup",
                reencodes && options.clean_tones,
                false,
                PipelineCostClass::Medium,
                PipelineStepEffects { dimensions: false, pixels: true, alpha: false, metadata: false, passthrough: true },
            );
    let s4 = step(
                "enhance-color",
                color_enhance_label(options.color_enhance),
                "enhance",
                reencodes && options.color_enhance != ColorEnhanceMode::Off,
                false,
                PipelineCostClass::Medium,
                PipelineStepEffects { dimensions: false, pixels: true, alpha: false, metadata: false, passthrough: true },
            );
    let s5 = step(
                "sharpen",
                sharpen_label(options.sharpen),
                "enhance",
                reencodes && options.sharpen != SharpenMode::Off,
                false,
                PipelineCostClass::Medium,
                PipelineStepEffects { dimensions: false, pixels: true, alpha: false, metadata: false, passthrough: true },
            );
    let stage = PipelineStage {
        id: "transform".to_string(),
        label: "Transform".to_string(),
        enabled: reencodes,
        steps: vec![s0, s1, s2, s3, s4, s5],
    };
    assert(stage@.steps =~= seq![s0@, s1@, s2@, s3@, s4@, s5@]);
    assert(stage@.steps =~= transform_stage_spec(*options).steps);
    stage
}

fn encode_stage(options: &ConvertOptions, reencodes: bool) -> (stage: PipelineStage)
    requires
        reencodes == image_reencoded(*options),
    ensures
        stage@ =~~= encode_stage_spec(*options),
{
    let s0 = step(
                "strip-metadata",
                "Strip metadata through encode",
                "encode",
                reencodes,
                true,
                PipelineCostClass::Cheap,
                PipelineStepEffects { dimensions: false, pixels: false, alpha: false, metadata: true, passthrough: false },
            );
    let s1 = step(
                "encode-output",
                encode_label(options),
                "encode",
                true,
                true,
                if options.image_format == ImageFormat::Avif {
                    PipelineCostClass::Expensive
                } else {
                    PipelineCostClass::Medium
                },
                PipelineStepEffects { dimensions: false, pixels: reencodes, alpha: false, metadata: false, passthrough: false },
            );
    let stage = PipelineStage {
        id: "encode".to_string(),
        label: "Encode".to_string(),
        enabled: true,
        steps: vec![s0, s1],
    };
    assert(stage@.steps =~= seq![s0@, s1@]);
    assert(stage@.steps =~= encode_stage_spec(*options).steps);
    stage
}

fn package_stage(options: &ConvertOptions) -> (stage: PipelineStage)
    ensures
        stage@ =~~= package_stage_spec(*options),
{
    let s0 = step(
        "write-container",
        package_label(options),
        "package",
        true,
        true,
        PipelineCostClass::Medium,
        PipelineStepEffects::default(),
    );
    let stage = PipelineStage {
        id: "package".to_string(),
        label: "Package".to_string(),
        enabled: true,
        steps: vec![s0],
    };
    assert(stage@.steps =~= seq![s0@]);
    assert(stage@.steps =~= package_stage_spec(*options).steps);
    stage
}

/// Counts the selected pages and lists the stages a conversion with
/// `options` over `edits` will run.
pub fn build(options: ConvertOptions, edits: Vec<VolumeEdit>) -> (plan: PipelinePlan)
    requires
        page_total(edits@) <= u32::MAX,
    ensures
        plan.total_pages == page_total(edits@),
        plan.excluded_pages == excluded_total(edits@),
        plan.included_pages == page_total(edits@) - excluded_total(edits@),
        plan.included_pages + plan.excluded_pages == plan.total_pages,
        plan.added_pages == added_total(edits@),
        plan.volumes == edits@.len() as u32,
        plan.image_format == options.image_format,
        plan.output_format == options.output_format,
        stages_view(plan.stages@) =~~= planned_stages(options),
{
    let mut total_pages: u32 = 0;
    let mut excluded_pages: u32 = 0;
    let mut added_pages: u32 = 0;
    let mut i: usize = 0;
    while i < edits.len()
        invariant
            i <= edits@.len(),
            page_total(edits@) <= u32::MAX,
            total_pages == page_total(edits@.take(i as int)),
            excluded_pages == excluded_total(edits@.take(i as int)),
            added_pages == added_total(edits@.take(i as int)),
        decreases edits@.len() - i,
    {
        proof {
            lemma_page_total_prefix(edits@, i as int + 1);
            lemma_counts_bounded(edits@.take(i as int + 1));
            assert(edits@.take(i as int + 1).drop_last() =~= edits@.take(i as int));
        }
        let pages = &edits[i].pages;
        let base_total = total_pages;
        let base_excluded = excluded_pages;
        let base_added = added_pages;
        let mut j: usize = 0;
        while j < pages.len()
            invariant
                j <= pages@.len(),
                pages@ == edits@[i as int].pages@,
                base_total + pages@.len() <= u32::MAX,
                excluded_total(edits@.take(i as int)) + excluded_in(pages@) + added_total(edits@.take(i as int)) + added_in(pages@) <= u32::MAX,
                base_excluded == excluded_total(edits@.take(i as int)),
                base_added == added_total(edits@.take(i as int)),
                total_pages == base_total + j,
                excluded_pages == base_excluded + excluded_in(pages@.take(j as int)),
                added_pages == base_added + added_in(pages@.take(j as int)),
            decreases pages@.len() - j,
        {
            proof {
                assert(pages@.take(j as int + 1).drop_last() =~= pages@.take(j as int));
                lemma_volume_counts_prefix(pages@, j as int + 1);
            }
            total_pages = total_pages + 1;
            if pages[j].excluded {
                excluded_pages = excluded_pages + 1;
            }
            if pages[j].source.is_custom() && !pages[j].excluded {
                added_pages = added_pages + 1;
            }
            j = j + 1;
        }
        proof {
            assert(pages@.take(j as int) =~= pages@);
        }
        i = i + 1;
    }
    proof {
        assert(edits@.take(i as int) =~= edits@);
        lemma_counts_bounded(edits@);
    }
    let included_pages = total_pages.saturating_sub(excluded_pages);
    PipelinePlan {
        total_pages,
        included_pages,
        excluded_pages,
        added_pages,
        volumes: edits.len() as u32,
        image_format: options.image_format,
        output_format: options.output_format,
        stages: stages(&options),
    }
}

proof fn lemma_page_total_prefix(edits: Seq<VolumeEdit>, k: int)
    requires
        0 <= k <= edits.len(),
    ensures
        page_total(edits.take(k)) <= page_total(edits),
    decreases edits.len(),
{
    if k < edits.len() {
        assert(edits.drop_last().take(k) =~= edits.take(k));
        lemma_page_total_prefix(edits.drop_last(), k);
    } else {
        assert(edits.take(k) =~= edits);
    }
}

proof fn lemma_volume_counts_prefix(pages: Seq<PageEditEntry>, k: int)
    requires
        0 <= k <= pages.len(),
    ensures
        excluded_in(pages.take(k)) <= excluded_in(pages),
        added_in(pages.take(k)) <= added_in(pages),
    decreases pages.len(),
{
    if k < pages.len() {
        assert(pages.drop_last().take(k) =~= pages.take(k));
        lemma_volume_counts_prefix(pages.drop_last(), k);
    } else {
        assert(pages.take(k) =~= pages);
    }
}

} // verus!
