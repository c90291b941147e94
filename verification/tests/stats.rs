use thasia::events::ConversionOutput;
use thasia::run::{start_volume, ConversionTally, VolumeConversionResult};
use thasia::stats::{ConversionStats, ImageStats};

fn image(passthrough: bool, input: u64, output: u64) -> ImageStats {
    ImageStats {
        input_bytes: input,
        output_bytes: output,
        passthrough,
        fetch_nanos: 1_000_000,
        decode_nanos: 2_000_000,
        transform_nanos: 3_000_000,
        encode_nanos: 4_000_000,
    }
}

fn volume_stats() -> ConversionStats {
    let mut stats = ConversionStats::default();
    stats.add_image(&image(true, 100, 100));
    stats.add_image(&image(false, 300, 120));
    stats
}

#[test]
fn add_image_counts_pages_and_bytes() {
    let stats = volume_stats();
    assert_eq!(stats.pages, 2);
    assert_eq!(stats.passthrough_pages, 1);
    assert_eq!(stats.encoded_pages, 1);
    assert_eq!(stats.input_bytes, 400);
    assert_eq!(stats.output_bytes, 220);
    assert_eq!(stats.fetch_nanos, 2_000_000);
    assert_eq!(stats.encode_nanos, 8_000_000);
}

#[test]
fn merge_adds_totals_in_any_order() {
    let a = volume_stats();
    let mut b = ConversionStats::default();
    b.add_image(&image(false, 5, 6));
    let mut ab = a;
    ab.merge(&b);
    let mut ba = b;
    ba.merge(&a);
    assert_eq!((ab.pages, ab.input_bytes, ab.output_bytes), (3, 405, 226));
    assert_eq!((ba.pages, ba.input_bytes, ba.output_bytes), (3, 405, 226));
    assert_eq!(ab.decode_nanos, ba.decode_nanos);
    assert_eq!(ab.pages, ab.passthrough_pages + ab.encoded_pages);
}

#[test]
fn merging_empty_totals_changes_nothing() {
    let a = volume_stats();
    let mut merged = a;
    merged.merge(&ConversionStats::default());
    assert_eq!(merged.pages, a.pages);
    assert_eq!(merged.transform_nanos, a.transform_nanos);
}

#[test]
fn tally_records_successes_and_failures() {
    let mut tally = ConversionTally::new();
    let output = ConversionOutput { volume_num: 1, volume_name: "Vol 1".into(), path: "/out/Vol 1.cbz".into() };
    let done = tally.record(1, Ok(VolumeConversionResult { stats: volume_stats(), output }));
    assert!(done.success);
    assert_eq!(done.output_path.as_deref(), Some("/out/Vol 1.cbz"));
    assert!(done.error.is_none());
    let failed = tally.record(2, Err("Image pipeline error: broken".into()));
    assert!(!failed.success);
    assert_eq!(failed.volume_num, 2);
    assert_eq!(failed.error.as_deref(), Some("Image pipeline error: broken"));
    assert!(failed.output_path.is_none());
    assert_eq!((tally.successful, tally.failed), (1, 1));
    assert_eq!(tally.outputs.len(), 1);
    assert_eq!(tally.stats.pages, 2);
}

#[test]
fn volumes_start_until_cancelled() {
    let event = start_volume(false, 2, "Vol 2".into(), 3).expect("started");
    assert_eq!((event.volume_num, event.volume_name.as_str(), event.total_volumes), (2, "Vol 2", 3));
    assert!(start_volume(true, 2, "Vol 2".into(), 3).is_none());
}
