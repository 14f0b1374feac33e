//! The tool's configuration model and its validation rules. Reading and
//! writing the configuration file happens outside the library; the shape
//! of a valid configuration is decided here.

use vstd::prelude::*;
use crate::headers::spec_trimmed_blank;
use crate::text::{chars_to_string, contains_seq, contains_sub, str_chars, sub_chars};

verus! {

/// Configuration errors.
#[derive(Debug)]
pub enum ConfigError {
    /// No configuration directory could be determined.
    NoConfigDir,
    /// The configuration file was absent; an example was written at the
    /// given path and the run stops so it can be edited.
    MissingConfigFile(String),
    /// Required fields are missing or still hold placeholders.
    MissingFields(Vec<String>),
    /// Reading or writing the file failed.
    Io(String),
    /// The file's text could not be parsed.
    Parse(String),
}

/// Naming options.
#[derive(Debug, Clone)]
pub struct Naming {
    pub safe_fs: bool,
}

/// The host LMS's section.
#[derive(Debug, Clone)]
pub struct Canvas {
    pub base_url: String,
    pub token: Option<String>,
    pub token_cmd: Option<String>,
    pub ignored_courses: Vec<String>,
    pub cookie_file: Option<String>,
    pub sso_email: Option<String>,
    pub sso_password: Option<String>,
}

/// The video provider's section.
#[derive(Debug, Clone)]
pub struct Zoom {
    pub enabled: bool,
    pub ffmpeg_path: String,
    pub cookie_file: String,
    pub user_agent: String,
    pub external_tool_id: u64,
}

/// Logging options.
#[derive(Debug, Clone)]
pub struct Logging {
    pub level: String,
    pub file: String,
}

/// The whole configuration.
#[derive(Debug, Clone)]
pub struct Config {
    pub download_root: String,
    pub concurrency: u32,
    pub max_rps: u32,
    pub user_agent: String,
    pub course_include: Vec<String>,
    pub course_exclude: Vec<String>,
    pub week_pattern: String,
    pub naming: Naming,
    pub logging: Logging,
    pub canvas: Canvas,
    pub zoom: Zoom,
}

/// The configuration directory's paths.
#[derive(Debug, Clone)]
pub struct ConfigPaths {
    pub config_dir: String,
    pub config_file: String,
}

/// The default for a switch that is on unless turned off.
pub fn default_true() -> (r: bool)
    ensures
        r == true,
{
    true
}

/// The default logging level.
pub fn default_level() -> (r: String)
    ensures
        r@ == "info"@,
{
    "info".to_owned()
}

/// The default log file location.
pub fn default_log_file() -> (r: String)
    ensures
        r@ == "~/.config/u_crawler/u_crawler.log"@,
{
    "~/.config/u_crawler/u_crawler.log".to_owned()
}

/// The default LTI external-tool number under which the provider is
/// embedded in the LMS.
pub fn default_tool_id() -> (r: u64)
    ensures
        r == 187,
{
    187
}

impl Default for Logging {
    /// The default logging section.
    fn default() -> (r: Logging)
        ensures
            r.level@ == "info"@,
            r.file@ == "~/.config/u_crawler/u_crawler.log"@,
    {
        Logging { level: default_level(), file: default_log_file() }
    }
}

impl Default for Config {
    /// The example configuration written on first run: placeholders that
    /// validation rejects until they are edited.
    fn default() -> (r: Config)
        ensures
            r.download_root@ == "~/Documents/UNAB/data/Canvas"@,
            r.concurrency == 4 && r.max_rps == 2,
            r.user_agent@.len() == 0,
            r.course_include@.len() == 1,
            r.course_exclude@.len() == 0,
            r.week_pattern@.len() == 0,
            r.naming.safe_fs,
            r.canvas.base_url@ == "https://<tenant>.instructure.com"@,
            r.canvas.token is None && r.canvas.token_cmd is None,
            r.canvas.sso_email is None && r.canvas.sso_password is None,
            r.zoom.enabled && r.zoom.ffmpeg_path@ == "ffmpeg"@,
            r.zoom.user_agent@ == "Mozilla/5.0"@,
            r.zoom.external_tool_id == 187,
    {
        Config {
            download_root: "~/Documents/UNAB/data/Canvas".to_owned(),
            concurrency: 4,
            max_rps: 2,
            user_agent: String::new(),
            course_include: {
                let mut v: Vec<String> = Vec::new();
                v.push("*".to_owned());
                v
            },
            course_exclude: Vec::new(),
            week_pattern: String::new(),
            naming: Naming { safe_fs: true },
            logging: Logging::default(),
            canvas: Canvas {
                base_url: "https://<tenant>.instructure.com".to_owned(),
                token: None,
                token_cmd: None,
                ignored_courses: Vec::new(),
                cookie_file: Some("~/.config/u_crawler/canvas_cookies.txt".to_owned()),
                sso_email: None,
                sso_password: None,
            },
            zoom: Zoom {
                enabled: true,
                ffmpeg_path: "ffmpeg".to_owned(),
                cookie_file: "~/.config/u_crawler/zoom_cookies.txt".to_owned(),
                user_agent: "Mozilla/5.0".to_owned(),
                external_tool_id: 187,
            },
        }
    }
}

/// An optional field is effectively blank.
pub open spec fn spec_blank_opt(v: Option<String>) -> bool {
    match v {
        Some(s) => spec_trimmed_blank(s@).len() == 0,
        None => true,
    }
}

fn blank_opt(v: &Option<String>) -> (r: bool)
    ensures
        r == spec_blank_opt(*v),
{
    match v {
        Some(s) => crate::headers::trim_blanks(&str_chars(s.as_str())).len() == 0,
        None => true,
    }
}

fn blank(s: &String) -> (r: bool)
    ensures
        r == (spec_trimmed_blank(s@).len() == 0),
{
    crate::headers::trim_blanks(&str_chars(s.as_str())).len() == 0
}

impl Config {
    /// The configuration is missing its download root.
    pub open spec fn missing_root(self) -> bool {
        spec_trimmed_blank(self.download_root@).len() == 0
    }

    /// The LMS base URL is blank or still the placeholder.
    pub open spec fn missing_base_url(self) -> bool {
        spec_trimmed_blank(self.canvas.base_url@).len() == 0 || contains_seq(
            self.canvas.base_url@,
            "<tenant>"@,
        )
    }

    /// Neither an access token nor a command to obtain one is set.
    pub open spec fn missing_token(self) -> bool {
        spec_blank_opt(self.canvas.token) && spec_blank_opt(self.canvas.token_cmd)
    }

    /// The transcode tool path is blank while the provider is enabled.
    pub open spec fn missing_ffmpeg(self) -> bool {
        self.zoom.enabled && spec_trimmed_blank(self.zoom.ffmpeg_path@).len() == 0
    }

    /// Validates the configuration: succeeds exactly when nothing
    /// required is missing, and otherwise names every missing field.
    pub fn postprocess_and_validate(&self) -> (r: Result<(), ConfigError>)
        ensures
            r is Ok <==> (!self.missing_root() && !self.missing_base_url()
                && !self.missing_token() && !self.missing_ffmpeg()),
            r matches Err(e) ==> e is MissingFields,
    {
        let mut missing: Vec<String> = Vec::new();
        if blank(&self.download_root) {
            missing.push("download_root".to_owned());
        }
        if blank(&self.canvas.base_url) || contains_sub(
            &str_chars(self.canvas.base_url.as_str()),
            &str_chars("<tenant>"),
        ) {
            missing.push("canvas.base_url".to_owned());
        }
        if blank_opt(&self.canvas.token) && blank_opt(&self.canvas.token_cmd) {
            missing.push("canvas.token or canvas.token_cmd".to_owned());
        }
        if self.zoom.enabled {
            if blank(&self.zoom.ffmpeg_path) {
                missing.push("zoom.ffmpeg_path".to_owned());
            }
        }
        if missing.len() == 0 {
            Ok(())
        } else {
            Err(ConfigError::MissingFields(missing))
        }
    }

    /// Expands tildes in every path-like field against the given home
    /// directory; without one, nothing changes.
    pub fn expand_paths(&mut self, home: &Option<String>)
        ensures
            match home {
                Some(h) => {
                    &&& final(self).download_root@ == spec_expand_tilde(
                        old(self).download_root@,
                        h@,
                    )
                    &&& final(self).zoom.cookie_file@ == spec_expand_tilde(
                        old(self).zoom.cookie_file@,
                        h@,
                    )
                    &&& final(self).logging.file@ == spec_expand_tilde(
                        old(self).logging.file@,
                        h@,
                    )
                    &&& (match (old(self).canvas.cookie_file, final(self).canvas.cookie_file) {
                        (Some(before), Some(after)) => after@ == spec_expand_tilde(before@, h@),
                        (None, None) => true,
                        _ => false,
                    })
                },
                None => *final(self) == *old(self),
            },
    {
        match home {
            Some(h) => {
                self.download_root = expand_tilde(self.download_root.as_str(), h.as_str());
                self.zoom.cookie_file = expand_tilde(self.zoom.cookie_file.as_str(), h.as_str());
                self.logging.file = expand_tilde(self.logging.file.as_str(), h.as_str());
                let expanded = match &self.canvas.cookie_file {
                    Some(cf) => Some(expand_tilde(cf.as_str(), h.as_str())),
                    None => None,
                };
                self.canvas.cookie_file = expanded;
            },
            None => {},
        }
    }
}

/// A leading `~/` is replaced by the home directory and a separator.
pub open spec fn spec_expand_tilde(s: Seq<char>, home: Seq<char>) -> Seq<char> {
    if crate::text::starts_with(s, "~/"@) {
        home + "/"@ + s.subrange(2, s.len() as int)
    } else {
        s
    }
}

/// Expands a leading `~/` against the home directory.
pub fn expand_tilde(input: &str, home: &str) -> (r: String)
    ensures
        r@ == spec_expand_tilde(input@, home@),
{
    let v = str_chars(input);
    let tilde = str_chars("~/");
    proof {
        reveal_strlit("~/");
        assert(tilde@.len() == 2);
    }
    if crate::text::has_prefix(&v, &tilde) {
        let mut out = str_chars(home);
        out.push('/');
        let rest = sub_chars(&v, 2, v.len());
        let ghost base = out@;
        let mut i: usize = 0;
        while i < rest.len()
            invariant
                i <= rest@.len(),
                out@ == base + rest@.subrange(0, i as int),
            decreases rest@.len() - i,
        {
            out.push(rest[i]);
            proof {
                assert(base + rest@.subrange(0, i + 1) =~= (base + rest@.subrange(
                    0,
                    i as int,
                )).push(rest@[i as int]));
            }
            i += 1;
        }
        proof {
            reveal_strlit("/");
            assert(rest@.subrange(0, rest@.len() as int) =~= rest@);
            assert(out@ =~= spec_expand_tilde(input@, home@));
        }
        chars_to_string(&out)
    } else {
        input.to_owned()
    }
}

/// Relies on dirs-next's `home_dir`: the user's home directory, as the
/// environment reports it. Nothing is assumed of the reading.
#[verifier::external_body]
pub fn home_dir_path() -> Option<String> {
    dirs_next::home_dir().map(|p| p.to_string_lossy().into_owned())
}

/// The user agent the recording client sends: the provider-specific one
/// when set, else the general one, else the tool's own name.
pub fn effective_user_agent(cfg: &Config) -> (r: String)
    ensures
        spec_trimmed_blank(cfg.zoom.user_agent@).len() > 0 ==> r@ == cfg.zoom.user_agent@,
        spec_trimmed_blank(cfg.zoom.user_agent@).len() == 0 && spec_trimmed_blank(
            cfg.user_agent@,
        ).len() > 0 ==> r@ == cfg.user_agent@,
        spec_trimmed_blank(cfg.zoom.user_agent@).len() == 0 && spec_trimmed_blank(
            cfg.user_agent@,
        ).len() == 0 ==> r@ == "u_crawler/0.1.0"@,
{
    if !blank(&cfg.zoom.user_agent) {
        cfg.zoom.user_agent.clone()
    } else if !blank(&cfg.user_agent) {
        cfg.user_agent.clone()
    } else {
        "u_crawler/0.1.0".to_owned()
    }
}

} // verus!
