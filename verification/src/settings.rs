//! The soundpad's tuning: buffer sizes, resampling chunk size and delays,
//! and how much of each sound is loaded ahead of time.

use crate::storage::{preload_sample_limit, StoragePaths};
use vstd::prelude::*;

verus! {

/// Channel count of the stored sound files.
pub const CLIP_CHANNELS: usize = 2;

/// The soundpad's settings.
#[derive(Debug)]
pub struct SoundpadSettings {
    /// The microphone buffer holds one `input_buffer_divider`-th of a second.
    pub input_buffer_divider: usize,
    /// The output buffer holds one `output_buffer_divider`-th of a second.
    pub output_buffer_divider: usize,
    /// The clip buffer holds `clip_buffer_multiplier` seconds.
    pub clip_buffer_multiplier: usize,
    /// Frames per resampler chunk.
    pub resampling_chunk_size: usize,
    /// Delay before resampling starts, in milliseconds.
    pub resampling_start_delay_ms: u64,
    /// Delay before taking an input sample again after none was there, in
    /// milliseconds.
    pub resampling_buffer_fill_retry_delay_ms: u64,
    /// Sounds up to this many mebibytes are loaded whole at start-up.
    pub max_preload_size_mb: u32,
    pub storage_paths: StoragePaths,
}

impl SoundpadSettings {
    /// The settings the soundpad starts with.
    pub fn new(storage_paths: StoragePaths) -> (s: SoundpadSettings)
        ensures
            s.input_buffer_divider == 5,
            s.output_buffer_divider == 5,
            s.clip_buffer_multiplier == 2,
            s.resampling_chunk_size == 2024,
            s.resampling_start_delay_ms == 100,
            s.resampling_buffer_fill_retry_delay_ms == 1,
            s.max_preload_size_mb == 5,
            s.storage_paths == storage_paths,
    {
        SoundpadSettings {
            input_buffer_divider: 5,
            output_buffer_divider: 5,
            clip_buffer_multiplier: 2,
            resampling_chunk_size: 2024,
            resampling_start_delay_ms: 100,
            resampling_buffer_fill_retry_delay_ms: 1,
            max_preload_size_mb: 5,
            storage_paths,
        }
    }

    /// Samples in the microphone buffer for a device with `rate` frames per
    /// second of `channels` channels.
    pub fn input_buffer_len(&self, rate: u32, channels: u16) -> (n: usize)
        requires
            self.input_buffer_divider > 0,
            rate * channels <= usize::MAX,
        ensures
            n == rate * channels / (self.input_buffer_divider as int),
    {
        (rate as usize) * (channels as usize) / self.input_buffer_divider
    }

    /// Samples in the output buffer for a device with `rate` frames per
    /// second of `channels` channels.
    pub fn output_buffer_len(&self, rate: u32, channels: u16) -> (n: usize)
        requires
            self.output_buffer_divider > 0,
            rate * channels <= usize::MAX,
        ensures
            n == rate * channels / (self.output_buffer_divider as int),
    {
        (rate as usize) * (channels as usize) / self.output_buffer_divider
    }

    /// Samples in the clip buffer for an output with `rate` frames per
    /// second of `channels` channels.
    pub fn clip_buffer_len(&self, rate: u32, channels: u16) -> (n: usize)
        requires
            rate * channels <= usize::MAX,
            rate * channels * self.clip_buffer_multiplier <= usize::MAX,
        ensures
            n == rate * channels * self.clip_buffer_multiplier,
    {
        (rate as usize) * (channels as usize) * self.clip_buffer_multiplier
    }

    /// Samples read ahead of time from each sound file.
    pub fn preload_samples(&self) -> (n: usize)
        requires
            self.max_preload_size_mb * 1024 * 1024 <= u32::MAX,
        ensures
            n == self.max_preload_size_mb * 1024 * 1024 / 4,
    {
        preload_sample_limit(self.max_preload_size_mb)
    }
}

} // verus!
