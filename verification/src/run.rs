//! Bookkeeping of a conversion run across its volumes.
use vstd::prelude::*;
use crate::error::ConvertError;
use crate::events::{ConversionOutput, VolumeCompleteEvent, VolumeStartEvent};
use crate::options::ConvertOptions;
use crate::paths::{join, join_path};
use crate::stats::{fits, sum_stats, zero_stats, ConversionStats};

verus! {

/// What a converted volume yields: its totals and the file written.
#[derive(Clone, Debug)]
pub struct VolumeConversionResult {
    pub stats: ConversionStats,
    pub output: ConversionOutput,
}

/// Running totals of a conversion run.
pub struct ConversionTally {
    pub successful: u32,
    pub failed: u32,
    pub stats: ConversionStats,
    pub outputs: Vec<ConversionOutput>,
}

impl ConversionTally {
    /// One output per successful volume.
    pub open spec fn wf(&self) -> bool {
        self.outputs@.len() == self.successful
    }

    /// Nothing converted yet.
    pub fn new() -> (tally: Self)
        ensures
            tally.wf(),
            tally.successful == 0,
            tally.failed == 0,
            tally.stats@ == zero_stats(),
            tally.outputs@.len() == 0,
    {
        ConversionTally {
            successful: 0,
            failed: 0,
            stats: ConversionStats::default(),
            outputs: Vec::new(),
        }
    }

    /// Records how a volume ended and returns the event that reports it: a
    /// success adds the volume's totals and output, a failure its message.
    pub fn record(
        &mut self,
        volume_num: u32,
        result: Result<VolumeConversionResult, String>,
    ) -> (event: VolumeCompleteEvent)
        requires
            old(self).wf(),
            result is Ok ==> old(self).successful < u32::MAX && fits(
                sum_stats(old(self).stats@, result->Ok_0.stats@),
            ),
            result is Err ==> old(self).failed < u32::MAX,
        ensures
            final(self).wf(),
            event.volume_num == volume_num,
            match result {
                Ok(converted) => {
                    &&& event.success
                    &&& event.error is None
                    &&& event.output_path is Some && event.output_path->0@ == converted.output.path@
                    &&& final(self).successful == old(self).successful + 1
                    &&& final(self).failed == old(self).failed
                    &&& final(self).stats@ == sum_stats(old(self).stats@, converted.stats@)
                    &&& final(self).outputs@ == old(self).outputs@.push(converted.output)
                },
                Err(message) => {
                    &&& !event.success
                    &&& event.error is Some && event.error->0@ == message@
                    &&& event.output_path is None
                    &&& final(self).successful == old(self).successful
                    &&& final(self).failed == old(self).failed + 1
                    &&& final(self).stats == old(self).stats
                    &&& final(self).outputs@ == old(self).outputs@
                },
            },
    {
        match result {
            Ok(converted) => {
                self.successful = self.successful + 1;
                self.stats.merge(&converted.stats);
                let path = converted.output.path.clone();
                self.outputs.push(converted.output);
                VolumeCompleteEvent { volume_num, success: true, error: None, output_path: Some(path) }
            },
            Err(message) => {
                self.failed = self.failed + 1;
                VolumeCompleteEvent { volume_num, success: false, error: Some(message), output_path: None }
            },
        }
    }
}

/// Where a run writes its volumes: the output directory, or, when a
/// directory is to be created, the child named by the output name made safe
/// as a file name component. `component` is that safe component, or the
/// message of the error that refused the output name.
pub fn output_root(options: &ConvertOptions, component: Result<String, String>) -> (root: Result<String, ConvertError>)
    ensures
        !options.create_directory ==> root is Ok && root->Ok_0@ == options.output_dir@,
        options.create_directory ==> match component {
            Ok(c) => root is Ok && root->Ok_0@ == join(options.output_dir@, c@),
            Err(message) => root matches Err(ConvertError::InvalidOutputName(m)) && m == message,
        },
{
    if options.create_directory {
        match component {
            Ok(c) => Ok(join_path(options.output_dir.as_str(), c.as_str())),
            Err(message) => Err(ConvertError::InvalidOutputName(message)),
        }
    } else {
        Ok(options.output_dir.clone())
    }
}

/// The parts of the conversion state a run needs: the scan result and the
/// scanned source, or the error for the first one missing.
pub fn conversion_inputs<S, T>(scan_result: Option<S>, source: Option<T>) -> (inputs: Result<(S, T), ConvertError>)
    ensures
        scan_result is None ==> inputs matches Err(ConvertError::MissingScanResult),
        scan_result is Some && source is None ==> inputs matches Err(ConvertError::MissingSource),
        scan_result is Some && source is Some ==> inputs == Ok::<(S, T), ConvertError>((scan_result->0, source->0)),
{
    match scan_result {
        None => Err(ConvertError::MissingScanResult),
        Some(scan) => match source {
            None => Err(ConvertError::MissingSource),
            Some(src) => Ok((scan, src)),
        },
    }
}

/// The step that begins each volume of a run: a cancelled run stops before
/// the volume; otherwise the volume starts and is announced with the run's
/// number of volumes.
pub fn start_volume(cancelled: bool, volume_num: u32, volume_name: String, total_volumes: u32) -> (start: Option<VolumeStartEvent>)
    ensures
        cancelled ==> start is None,
        !cancelled ==> (start matches Some(event) && event.volume_num == volume_num && event.volume_name == volume_name
            && event.total_volumes == total_volumes),
{
    if cancelled {
        None
    } else {
        Some(VolumeStartEvent { volume_num, volume_name, total_volumes })
    }
}

} // verus!
