//! Service configuration, computed once at startup from the environment's
//! settings, and the choice of the font directory.

use vstd::prelude::*;
use crate::numbers::{parse_unsigned, parse_u64, parse_u64_spec, unsigned_value};
use crate::text::{lower_seq, lower_eq, str_eq, ascii_lowercase};

verus! {

/// How log lines are written.
#[derive(Debug, Clone, Copy, PartialEq, Eq, Structural)]
pub enum LogFormat {
    Text,
    Json,
}

impl LogFormat {
    /// `json` in any case selects JSON; anything else plain text.
    pub fn parse(s: &str) -> (f: Self)
        ensures
            f == (if lower_seq(s@) == "json"@ {
                LogFormat::Json
            } else {
                LogFormat::Text
            }),
    {
        let l = ascii_lowercase(s);
        if str_eq(l.as_str(), "json") {
            LogFormat::Json
        } else {
            LogFormat::Text
        }
    }
}

// ─── Font directory ──────────────────────────────────────────────────────────

/// The extension of a file name as `Path::extension` reads it: the text
/// after the last `.`; none when there is no `.`, when the only `.` opens
/// the name, or for `..`.
pub open spec fn file_extension(name: Seq<char>) -> Option<Seq<char>> {
    if name == ".."@ {
        None
    } else {
        match last_dot(name) {
            Some(i) => if i == 0 {
                None
            } else {
                Some(name.subrange(i + 1, name.len() as int))
            },
            None => None,
        }
    }
}

/// The index of the last `.` of a name.
pub open spec fn last_dot(name: Seq<char>) -> Option<int>
    decreases name.len(),
{
    if name.len() == 0 {
        None
    } else if name.last() == '.' {
        Some(name.len() - 1)
    } else {
        last_dot(name.drop_last())
    }
}

/// A font file: extension `ttf` or `otf`, in any case.
pub open spec fn is_font_file(name: Seq<char>) -> bool {
    file_extension(name) matches Some(e) && (lower_seq(e) == "ttf"@ || lower_seq(e) == "otf"@)
}

fn find_last_dot(name: &str) -> (r: Option<usize>)
    ensures
        r matches Some(k) ==> last_dot(name@) == Some(k as int) && k < name@.len(),
        r is None ==> last_dot(name@) is None,
{
    let n = name.unicode_len();
    let mut k: usize = n;
    assert(name@.subrange(0, n as int) =~= name@);
    while k > 0
        invariant
            k <= n == name@.len(),
            last_dot(name@) == last_dot(name@.subrange(0, k as int)),
        decreases k,
    {
        let ghost sub = name@.subrange(0, k as int);
        if name.get_char(k - 1) == '.' {
            assert(sub.last() == '.');
            return Some(k - 1);
        }
        assert(sub.drop_last() =~= name@.subrange(0, k - 1));
        k = k - 1;
    }
    None
}

/// Whether a file name names a font.
pub fn is_font_file_name(name: &str) -> (b: bool)
    ensures
        b == is_font_file(name@),
{
    if str_eq(name, "..") {
        return false;
    }
    proof {
        assert(name@.subrange(0, name@.len() as int) =~= name@);
    }
    match find_last_dot(name) {
        Some(i) => {
            if i == 0 {
                return false;
            }
            let n = name.unicode_len();
            let ext = name.substring_char(i + 1, n);
            lower_eq(ext, "ttf") || lower_eq(ext, "otf")
        },
        None => false,
    }
}

/// A directory holds a font when one of its entries is a font file.
pub open spec fn lists_font(entries: Seq<String>) -> bool {
    exists|i: int| 0 <= i < entries.len() && is_font_file(#[trigger] entries[i]@)
}

pub fn dir_has_font(entries: &[String]) -> (b: bool)
    ensures
        b == lists_font(entries@),
{
    let mut i: usize = 0;
    while i < entries.len()
        invariant
            i <= entries@.len(),
            forall|j: int| 0 <= j < i ==> !is_font_file(#[trigger] entries@[j]@),
        decreases entries@.len() - i,
    {
        if is_font_file_name(entries[i].as_str()) {
            return true;
        }
        i = i + 1;
    }
    false
}

/// A candidate font directory and the names of its entries; `entries` is
/// `None` when the directory cannot be read.
#[derive(Debug, Clone)]
pub struct FontDirListing {
    pub path: String,
    pub entries: Option<Vec<String>>,
}

/// The candidate holds a font.
pub open spec fn usable(c: FontDirListing) -> bool {
    c.entries matches Some(e) && lists_font(e@)
}

/// The first candidate that holds a font, by index.
pub open spec fn first_usable(cs: Seq<FontDirListing>) -> Option<int> {
    if exists|i: int| 0 <= i < cs.len() && usable(#[trigger] cs[i]) {
        Some(
            choose|i: int|
                0 <= i < cs.len() && usable(cs[i]) && forall|j: int|
                    0 <= j < i ==> !usable(#[trigger] cs[j]),
        )
    } else {
        None
    }
}

/// The first candidate directory, in order, that exists and holds at least
/// one `.ttf` / `.otf` file.
pub fn first_usable_font_dir(candidates: &[FontDirListing]) -> (r: Option<String>)
    ensures
        match first_usable(candidates@) {
            Some(i) => r matches Some(p) && p@ == candidates@[i].path@,
            None => r is None,
        },
{
    let mut i: usize = 0;
    while i < candidates.len()
        invariant
            i <= candidates@.len(),
            forall|j: int| 0 <= j < i ==> !usable(#[trigger] candidates@[j]),
        decreases candidates@.len() - i,
    {
        let c = &candidates[i];
        let found = match &c.entries {
            Some(e) => dir_has_font(e.as_slice()),
            None => false,
        };
        if found {
            proof {
                let cs = candidates@;
                assert(usable(cs[i as int]));
                let k = first_usable(cs).unwrap();
                assert(0 <= k < cs.len() && usable(cs[k]) && forall|j: int|
                    0 <= j < k ==> !usable(#[trigger] cs[j]));
                if k < i {
                } else if k > i {
                    assert(!usable(cs[i as int]));
                }
            }
            return Some(c.path.clone());
        }
        i = i + 1;
    }
    None
}

/// Common system font directories, in priority order; the local `./fonts`
/// comes first so that a font dropped there overrides the system ones.
pub open spec fn font_dir_candidate_list() -> Seq<Seq<char>> {
    seq![
        "./fonts"@,
        "/usr/share/fonts/truetype/dejavu"@,
        "/usr/share/fonts/truetype/noto"@,
        "/usr/share/fonts/dejavu-sans-fonts"@,
        "/usr/share/fonts/google-noto-cjk"@,
        "/usr/share/fonts/dejavu"@,
        "/usr/share/fonts/noto-cjk"@,
        "/usr/share/fonts/TTF"@,
        "/Library/Fonts"@,
        "/usr/share/fonts"@,
    ]
}

pub fn font_dir_candidates() -> (r: Vec<&'static str>)
    ensures
        r@.map_values(|s: &str| s@) == font_dir_candidate_list(),
{
    let r = vec![
        "./fonts",
        "/usr/share/fonts/truetype/dejavu",
        "/usr/share/fonts/truetype/noto",
        "/usr/share/fonts/dejavu-sans-fonts",
        "/usr/share/fonts/google-noto-cjk",
        "/usr/share/fonts/dejavu",
        "/usr/share/fonts/noto-cjk",
        "/usr/share/fonts/TTF",
        "/Library/Fonts",
        "/usr/share/fonts",
    ];
    proof {
        assert(r@.map_values(|s: &str| s@) =~= font_dir_candidate_list());
    }
    r
}

/// The font directory used when none is configured: the first usable
/// candidate, else `./fonts`.
pub fn default_font_dir(candidates: &[FontDirListing]) -> (r: String)
    ensures
        match first_usable(candidates@) {
            Some(i) => r@ == candidates@[i].path@,
            None => r@ == "./fonts"@,
        },
{
    match first_usable_font_dir(candidates) {
        Some(p) => p,
        None => String::from_str("./fonts"),
    }
}

// ─── Configuration ───────────────────────────────────────────────────────────

/// The service configuration.
#[derive(Debug, Clone)]
pub struct Config {
    pub bind_addr: String,
    pub log_level: String,
    pub log_format: LogFormat,
    pub max_upload_bytes: usize,
    /// Decompression-bomb guard: cap on `width * height` of a decoded image,
    /// checked from the header before any pixel is decoded.
    pub max_pixels: u64,
    pub max_concurrent_jobs: usize,
    pub request_timeout_secs: u64,
    pub mask_cache_capacity: u64,
    /// The directory the font registry scans at startup.
    pub font_dir: String,
    /// Root of the source images of `GET /v1/img/{key}`.
    pub image_store_root: String,
    /// Capacity, in entries, of the cache of processed images.
    pub result_cache_capacity: u64,
    /// Root of the static files served under `/ui/`.
    pub ui_dir: String,
}

/// The settings read from the environment, each `None` when unset.
#[derive(Debug, Clone, Default)]
pub struct EnvSettings {
    pub bind: Option<String>,
    pub log: Option<String>,
    pub log_format: Option<String>,
    pub max_upload: Option<String>,
    pub max_pixels: Option<String>,
    pub max_concurrency: Option<String>,
    pub request_timeout_secs: Option<String>,
    pub mask_cache: Option<String>,
    pub font_dir: Option<String>,
    pub image_store: Option<String>,
    pub result_cache: Option<String>,
    pub ui_dir: Option<String>,
}

/// A numeric setting that does not parse.
#[derive(Debug, Clone)]
pub struct ConfigError {
    /// The environment variable.
    pub key: &'static str,
    /// Its value.
    pub value: String,
}

pub open spec fn text_or(o: Option<String>, d: Seq<char>) -> Seq<char> {
    match o {
        Some(s) => s@,
        None => d,
    }
}

/// A `usize` setting's value.
pub open spec fn usize_value(s: Seq<char>) -> Option<usize> {
    match unsigned_value(s, usize::MAX as nat) {
        Some(v) => Some(v as usize),
        None => None,
    }
}

fn text_setting(o: Option<String>, d: &str) -> (r: String)
    ensures
        r@ == text_or(o, d@),
{
    match o {
        Some(s) => s,
        None => String::from_str(d),
    }
}

fn u64_setting(o: Option<String>, d: &str, key: &'static str) -> (r: Result<u64, ConfigError>)
    ensures
        match parse_u64_spec(text_or(o, d@)) {
            Some(v) => r == Ok::<u64, ConfigError>(v),
            None => r matches Err(e) && e.key == key && e.value@ == text_or(o, d@),
        },
{
    let s = text_setting(o, d);
    match parse_u64(s.as_str()) {
        Some(v) => Ok(v),
        None => Err(ConfigError { key, value: s }),
    }
}

fn usize_setting(s: String, key: &'static str) -> (r: Result<usize, ConfigError>)
    ensures
        match usize_value(s@) {
            Some(v) => r == Ok::<usize, ConfigError>(v),
            None => r matches Err(e) && e.key == key && e.value@ == s@,
        },
{
    match parse_unsigned(s.as_str(), usize::MAX as u64) {
        Some(v) => Ok(v as usize),
        None => Err(ConfigError { key, value: s }),
    }
}

/// The configuration the settings describe, with the defaults of unset
/// settings; `cpus` is the number of available CPUs, of which the default
/// job concurrency is twice.
pub open spec fn config_model(
    env: EnvSettings,
    cpus: usize,
    default_font_dir: Seq<char>,
    r: Result<Config, ConfigError>,
) -> bool {
    let upload = text_or(env.max_upload, "20971520"@);
    let pixels = text_or(env.max_pixels, "67108864"@);
    let jobs = match env.max_concurrency {
        Some(s) => s@,
        None => crate::numbers::dec_string((2 * cpus) as nat),
    };
    let timeout = text_or(env.request_timeout_secs, "30"@);
    let masks = text_or(env.mask_cache, "256"@);
    let results = text_or(env.result_cache, "1024"@);
    let log_format = text_or(env.log_format, "text"@);
    if usize_value(upload) is None {
        r matches Err(e) && e.key@ == "IMAGE_RS_MAX_UPLOAD"@ && e.value@ == upload
    } else if parse_u64_spec(pixels) is None {
        r matches Err(e) && e.key@ == "IMAGE_RS_MAX_PIXELS"@ && e.value@ == pixels
    } else if usize_value(jobs) is None {
        r matches Err(e) && e.key@ == "IMAGE_RS_MAX_CONCURRENCY"@ && e.value@ == jobs
    } else if parse_u64_spec(timeout) is None {
        r matches Err(e) && e.key@ == "IMAGE_RS_REQUEST_TIMEOUT_SECS"@ && e.value@ == timeout
    } else if parse_u64_spec(masks) is None {
        r matches Err(e) && e.key@ == "IMAGE_RS_MASK_CACHE"@ && e.value@ == masks
    } else if parse_u64_spec(results) is None {
        r matches Err(e) && e.key@ == "IMAGE_RS_RESULT_CACHE"@ && e.value@ == results
    } else {
        r matches Ok(c) && c.bind_addr@ == text_or(env.bind, "0.0.0.0:8080"@) && c.log_level@
            == text_or(env.log, "info,tower_http=info"@) && c.log_format == (if lower_seq(
            log_format,
        ) == "json"@ {
            LogFormat::Json
        } else {
            LogFormat::Text
        }) && c.max_upload_bytes == usize_value(upload).unwrap() && c.max_pixels
            == parse_u64_spec(pixels).unwrap() && c.max_concurrent_jobs == usize_value(
            jobs,
        ).unwrap() && c.request_timeout_secs == parse_u64_spec(timeout).unwrap()
            && c.mask_cache_capacity == parse_u64_spec(masks).unwrap() && c.font_dir@ == text_or(
            env.font_dir,
            default_font_dir,
        ) && c.image_store_root@ == text_or(env.image_store, "./images"@)
            && c.result_cache_capacity == parse_u64_spec(results).unwrap() && c.ui_dir@
            == text_or(env.ui_dir, "./web/dist"@)
    }
}

impl Config {
    /// Builds the configuration from the environment's settings. The
    /// numeric settings are read in field order; the first that does not
    /// parse is reported.
    pub fn from_settings(env: EnvSettings, cpus: usize, default_font_dir: String) -> (r: Result<
        Self,
        ConfigError,
    >)
        requires
            2 * cpus <= usize::MAX,
        ensures
            config_model(env, cpus, default_font_dir@, r),
    {
        let font_dir = match env.font_dir {
            Some(s) => s,
            None => default_font_dir,
        };
        let bind_addr = text_setting(env.bind, "0.0.0.0:8080");
        let log_level = text_setting(env.log, "info,tower_http=info");
        let log_format_text = text_setting(env.log_format, "text");
        let log_format = LogFormat::parse(log_format_text.as_str());
        let max_upload_bytes = match usize_setting(
            text_setting(env.max_upload, "20971520"),
            "IMAGE_RS_MAX_UPLOAD",
        ) {
            Ok(v) => v,
            Err(e) => {
                return Err(e);
            },
        };
        let max_pixels = match u64_setting(env.max_pixels, "67108864", "IMAGE_RS_MAX_PIXELS") {
            Ok(v) => v,
            Err(e) => {
                return Err(e);
            },
        };
        let jobs_text = match env.max_concurrency {
            Some(s) => s,
            None => crate::numbers::fmt_u64((2 * cpus) as u64),
        };
        let max_concurrent_jobs = match usize_setting(jobs_text, "IMAGE_RS_MAX_CONCURRENCY") {
            Ok(v) => v,
            Err(e) => {
                return Err(e);
            },
        };
        let request_timeout_secs = match u64_setting(
            env.request_timeout_secs,
            "30",
            "IMAGE_RS_REQUEST_TIMEOUT_SECS",
        ) {
            Ok(v) => v,
            Err(e) => {
                return Err(e);
            },
        };
        let mask_cache_capacity = match u64_setting(env.mask_cache, "256", "IMAGE_RS_MASK_CACHE") {
            Ok(v) => v,
            Err(e) => {
                return Err(e);
            },
        };
        let image_store_root = text_setting(env.image_store, "./images");
        let result_cache_capacity = match u64_setting(
            env.result_cache,
            "1024",
            "IMAGE_RS_RESULT_CACHE",
        ) {
            Ok(v) => v,
            Err(e) => {
                return Err(e);
            },
        };
        let ui_dir = text_setting(env.ui_dir, "./web/dist");
        Ok(
            Config {
                bind_addr,
                log_level,
                log_format,
                max_upload_bytes,
                max_pixels,
                max_concurrent_jobs,
                request_timeout_secs,
                mask_cache_capacity,
                font_dir,
                image_store_root,
                result_cache_capacity,
                ui_dir,
            },
        )
    }
}

} // verus!
