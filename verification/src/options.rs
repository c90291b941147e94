//! Conversion options chosen by the user, and the format enumerations they use.
use vstd::prelude::*;

verus! {

/// Image encoding applied to every page.
#[derive(Clone, Copy, Debug, PartialEq, Eq, Structural)]
pub enum ImageFormat {
    Avif,
    Webp,
    Original,
}

/// Container written for each volume.
#[derive(Clone, Copy, Debug, PartialEq, Eq, Structural)]
pub enum OutputFormat {
    Cbz,
    Epub,
    Raw,
}

/// Reading direction of the produced book.
#[derive(Clone, Copy, Debug, PartialEq, Eq, Structural)]
pub enum Direction {
    Ltr,
    Rtl,
}

/// How detected chapters are grouped into output volumes.
#[derive(Clone, Copy, Debug, PartialEq, Eq, Structural)]
pub enum BundleMode {
    Auto,
    Flatten,
}

/// Strength of the colour enhancement transform.
#[derive(Clone, Copy, Debug, PartialEq, Eq, Structural)]
pub enum ColorEnhanceMode {
    Off,
    Mild,
    Balanced,
    Strong,
}

/// Strength of the sharpening transform.
#[derive(Clone, Copy, Debug, PartialEq, Eq, Structural)]
pub enum SharpenMode {
    Off,
    Mild,
}

/// Everything the user picked in the conversion wizard.
#[derive(Clone, Debug)]
pub struct ConvertOptions {
    pub output_dir: String,
    pub output_name: String,
    pub create_directory: bool,
    pub image_format: ImageFormat,
    pub max_width: Option<u32>,
    pub force_reencode: bool,
    pub clean_tones: bool,
    pub color_enhance: ColorEnhanceMode,
    pub sharpen: SharpenMode,
    pub auto_crop: bool,
    pub crop_padding: u32,
    pub moire_reduction: bool,
    pub eink_dither: bool,
    pub split_double_page: bool,
    pub output_format: OutputFormat,
    pub direction: Direction,
    pub bundle: BundleMode,
    pub volume_separator: String,
    pub hide_single_volume: bool,
}

impl ConvertOptions {
    /// The options a fresh conversion starts from.
    pub open spec fn is_default(&self) -> bool {
        &&& self.output_dir@ == Seq::<char>::empty()
        &&& self.has_default_choices()
    }

    /// Every choice but the output directory is at its default.
    pub open spec fn has_default_choices(&self) -> bool {
        &&& self.output_name@ == "output"@
        &&& !self.create_directory
        &&& self.image_format == ImageFormat::Avif
        &&& self.max_width is None
        &&& !self.force_reencode
        &&& !self.clean_tones
        &&& self.color_enhance == ColorEnhanceMode::Off
        &&& self.sharpen == SharpenMode::Off
        &&& !self.auto_crop
        &&& self.crop_padding == 0
        &&& !self.moire_reduction
        &&& !self.eink_dither
        &&& !self.split_double_page
        &&& self.output_format == OutputFormat::Cbz
        &&& self.direction == Direction::Ltr
        &&& self.bundle == BundleMode::Auto
        &&& self.volume_separator@ == " - "@
        &&& !self.hide_single_volume
    }
}

impl Default for ConvertOptions {
    fn default() -> (options: Self)
        ensures
            options.is_default(),
    {
        ConvertOptions {
            output_dir: String::new(),
            output_name: String::from_str("output"),
            create_directory: false,
            image_format: ImageFormat::Avif,
            max_width: None,
            force_reencode: false,
            clean_tones: false,
            color_enhance: ColorEnhanceMode::Off,
            sharpen: SharpenMode::Off,
            auto_crop: false,
            crop_padding: 0,
            moire_reduction: false,
            eink_dither: false,
            split_double_page: false,
            output_format: OutputFormat::Cbz,
            direction: Direction::Ltr,
            bundle: BundleMode::Auto,
            volume_separator: String::from_str(" - "),
            hide_single_volume: false,
        }
    }
}

/// What the packager needs to know: the container and the reading direction.
#[derive(Clone, Copy, Debug)]
pub struct PackageSelection {
    pub output_format: OutputFormat,
    pub direction: Direction,
}

impl<'a> From<&'a ConvertOptions> for PackageSelection {
    /// The packaging choices among the conversion options.
    fn from(options: &'a ConvertOptions) -> (selection: Self) {
        PackageSelection { output_format: options.output_format, direction: options.direction }
    }
}

impl<'a> vstd::std_specs::convert::FromSpecImpl<&'a ConvertOptions> for PackageSelection {
    open spec fn obeys_from_spec() -> bool {
        true
    }

    open spec fn from_spec(options: &'a ConvertOptions) -> Self {
        PackageSelection { output_format: options.output_format, direction: options.direction }
    }
}

/// Per-page transforms handed to the image pipeline.
#[derive(Clone, Copy, Debug)]
pub struct TransformOptions {
    pub max_width: Option<u32>,
    pub clean_tones: bool,
    pub color_enhance: ColorEnhanceMode,
    pub sharpen: SharpenMode,
    pub direction: Direction,
    pub auto_crop: bool,
    pub crop_padding: u32,
    pub moire_reduction: bool,
    pub eink_dither: bool,
    pub split_double_page: bool,
}

/// Encoding settings handed to the image pipeline.
#[derive(Clone, Copy, Debug)]
pub struct EncodeOptions {
    pub format: ImageFormat,
    pub force_reencode: bool,
    pub transform: TransformOptions,
}

/// The image pipeline's settings, copied field by field from the conversion options.
pub fn encode_options(options: &ConvertOptions) -> (encode: EncodeOptions)
    ensures
        encode.format == options.image_format,
        encode.force_reencode == options.force_reencode,
        encode.transform.max_width == options.max_width,
        encode.transform.clean_tones == options.clean_tones,
        encode.transform.color_enhance == options.color_enhance,
        encode.transform.sharpen == options.sharpen,
        encode.transform.direction == options.direction,
        encode.transform.auto_crop == options.auto_crop,
        encode.transform.crop_padding == options.crop_padding,
        encode.transform.moire_reduction == options.moire_reduction,
        encode.transform.eink_dither == options.eink_dither,
        encode.transform.split_double_page == options.split_double_page,
{
    EncodeOptions {
        format: options.image_format,
        force_reencode: options.force_reencode,
        transform: TransformOptions {
            max_width: options.max_width,
            clean_tones: options.clean_tones,
            color_enhance: options.color_enhance,
            sharpen: options.sharpen,
            direction: options.direction,
            auto_crop: options.auto_crop,
            crop_padding: options.crop_padding,
            moire_reduction: options.moire_reduction,
            eink_dither: options.eink_dither,
            split_double_page: options.split_double_page,
        },
    }
}

impl ConvertOptions {
    /// The options a new conversion starts from: the defaults, writing to the
    /// user's default output directory when one is set.
    pub fn for_new_conversion(default_output_dir: &Option<String>) -> (options: Self)
        ensures
            options.has_default_choices(),
            match default_output_dir {
                Some(dir) => options.output_dir == dir,
                None => options.output_dir@ == Seq::<char>::empty(),
            },
    {
        let mut options = ConvertOptions::default();
        match default_output_dir {
            Some(dir) => {
                options.output_dir = dir.clone();
            },
            None => {},
        }
        options
    }
}

} // verus!
