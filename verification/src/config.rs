//! Configuration for duplicate detection.

use vstd::prelude::*;

verus! {

use vstd::string::StringExecFns;
use crate::hash::{fnv1a64_hash, fnv1a64_spec};

/// Output format for detection results.
#[derive(Debug, Clone, Copy, PartialEq, Eq, Structural)]
pub enum OutputFormat {
    /// Human-readable console output.
    Console,
    /// JSON output with structured data.
    Json,
    /// XML output for tool integration.
    Xml,
}

impl Default for OutputFormat {
    /// The default output format is the console.
    fn default() -> (r: Self)
        ensures
            r == OutputFormat::Console,
    {
        OutputFormat::Console
    }
}

/// The little-endian bytes of a 32-bit value.
pub open spec fn u32_le_bytes(x: u32) -> Seq<u8> {
    seq![
        (x % 256) as u8,
        ((x / 256) % 256) as u8,
        ((x / 65536) % 256) as u8,
        ((x / 16777216) % 256) as u8,
    ]
}

/// Append the little-endian bytes of a 32-bit value.
fn push_u32_le(out: &mut Vec<u8>, x: u32)
    ensures
        final(out)@ == old(out)@ + u32_le_bytes(x),
{
    out.push((x % 256) as u8);
    out.push(((x / 256) % 256) as u8);
    out.push(((x / 65536) % 256) as u8);
    out.push(((x / 16777216) % 256) as u8);
    proof {
        assert(final(out)@ =~= old(out)@ + u32_le_bytes(x));
    }
}

/// The digest of the options that affect line cleaning: only `min_chars`.
pub open spec fn cleaning_hash_spec(min_chars: u32) -> u64 {
    fnv1a64_spec(u32_le_bytes(min_chars))
}

/// The byte encoding of the options that affect detection.
pub open spec fn detection_config_bytes(
    min_chars: u32,
    min_block_size: u32,
    block_percent_threshold: u8,
    ignore_same_filename: bool,
) -> Seq<u8> {
    u32_le_bytes(min_chars) + u32_le_bytes(min_block_size) + seq![
        block_percent_threshold,
        if ignore_same_filename {
            1u8
        } else {
            0u8
        },
    ]
}

/// The digest of the options that affect detection.
pub open spec fn detection_hash_spec(
    min_chars: u32,
    min_block_size: u32,
    block_percent_threshold: u8,
    ignore_same_filename: bool,
) -> u64 {
    fnv1a64_spec(
        detection_config_bytes(
            min_chars,
            min_block_size,
            block_percent_threshold,
            ignore_same_filename,
        ),
    )
}

/// Configuration options for duplicate detection.
#[derive(Debug, Clone)]
pub struct Config {
    /// Minimum number of bytes in a cleaned line to be considered.
    pub min_chars: u32,
    /// Minimum block size in lines to report.
    pub min_block_size: u32,
    /// Block percentage threshold in 0..=100.
    pub block_percent_threshold: u8,
    /// Maximum number of files to analyze; 0 means all files.
    pub files_to_check: usize,
    /// Number of threads for parallel processing.
    pub num_threads: usize,
    /// Output format.
    pub output_format: OutputFormat,
    /// Skip file pairs that share a filename.
    pub ignore_same_filename: bool,
    /// Path to the input file list, `-` for standard input; `None` when
    /// files come from version-control discovery.
    pub list_filename: Option<String>,
    /// Path to the output file, `-` for standard output.
    pub output_filename: String,
    /// Discover files from version control.
    pub git_mode: bool,
    /// Only report on files changed against a base branch.
    pub changed_only: bool,
    /// Base branch for the changed-only comparison.
    pub base_branch: Option<String>,
    /// Enable the cleaned-line cache.
    pub cache_enabled: bool,
    /// Cache directory.
    pub cache_dir: Option<String>,
    /// Clear the cache before running.
    pub clear_cache: bool,
    /// Path of a baseline to filter against.
    pub baseline_path: Option<String>,
    /// Path to save the current results as a baseline.
    pub save_baseline_path: Option<String>,
}

/// Relies on `num_cpus::get`: the number of logical CPUs, always at least 1.
#[verifier::external_body]
fn hardware_threads() -> (n: usize)
    ensures
        n >= 1,
{
    num_cpus::get()
}

impl Default for Config {
    /// The defaults: 3 bytes per line, blocks of 4 lines, all files, one
    /// thread per CPU, console output.
    fn default() -> (r: Self)
        ensures
            r.min_chars == 3,
            r.min_block_size == 4,
            r.block_percent_threshold == 100,
            r.files_to_check == 0,
            r.num_threads >= 1,
            r.output_format == OutputFormat::Console,
            !r.ignore_same_filename,
            r.list_filename is None,
            r.output_filename@ == "-"@,
            !r.git_mode,
            !r.changed_only,
            r.base_branch is None,
            !r.cache_enabled,
            r.cache_dir is None,
            !r.clear_cache,
            r.baseline_path is None,
            r.save_baseline_path is None,
    {
        Config {
            min_chars: 3,
            min_block_size: 4,
            block_percent_threshold: 100,
            files_to_check: 0,
            num_threads: hardware_threads(),
            output_format: OutputFormat::Console,
            ignore_same_filename: false,
            list_filename: None,
            output_filename: String::from_str("-"),
            git_mode: false,
            changed_only: false,
            base_branch: None,
            cache_enabled: false,
            cache_dir: None,
            clear_cache: false,
            baseline_path: None,
            save_baseline_path: None,
        }
    }
}

impl Config {
    /// The effective number of files to check: all of them when the cap is 0.
    pub fn effective_files_to_check(&self) -> (r: usize)
        ensures
            r == if self.files_to_check == 0 {
                usize::MAX as int
            } else {
                self.files_to_check as int
            },
    {
        if self.files_to_check == 0 {
            usize::MAX
        } else {
            self.files_to_check
        }
    }

    /// Digest of the options that affect line cleaning; drives cache
    /// invalidation.
    pub fn cleaning_config_hash(&self) -> (r: u64)
        ensures
            r == cleaning_hash_spec(self.min_chars),
    {
        let mut bytes: Vec<u8> = Vec::new();
        push_u32_le(&mut bytes, self.min_chars);
        fnv1a64_hash(bytes.as_slice())
    }

    /// Digest of the options that affect detection; drives baseline
    /// compatibility warnings.
    pub fn detection_config_hash(&self) -> (r: u64)
        ensures
            r == detection_hash_spec(
                self.min_chars,
                self.min_block_size,
                self.block_percent_threshold,
                self.ignore_same_filename,
            ),
    {
        let mut bytes: Vec<u8> = Vec::new();
        push_u32_le(&mut bytes, self.min_chars);
        push_u32_le(&mut bytes, self.min_block_size);
        bytes.push(self.block_percent_threshold);
        bytes.push(if self.ignore_same_filename {
            1
        } else {
            0
        });
        proof {
            assert(bytes@ =~= detection_config_bytes(
                self.min_chars,
                self.min_block_size,
                self.block_percent_threshold,
                self.ignore_same_filename,
            ));
        }
        fnv1a64_hash(bytes.as_slice())
    }
}

} // verus!
