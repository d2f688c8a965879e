//! Configuration values that steer extraction, correction and encoding.

use vstd::prelude::*;
use vstd::string::{StrSliceExecFns, StringExecFns};
use crate::correction::HUE_LIMIT;
use crate::text::{decimal, plain_decimal, push_decimal, push_plain_decimal};

verus! {

pub const DEFAULT_SAMPLE_SIZE: u8 = 3;

/// Seconds between two captures, in millionths.
pub const DEFAULT_CAPTURE_INTERVAL: i64 = 3_000_000;

/// Degrees of hue shift, in millionths.
pub const DEFAULT_HUE_SHIFT: i64 = 45_000_000;

/// The brightness factor that changes nothing, in millionths.
pub const DEFAULT_BRIGHTNESS_FACTOR: u32 = 1_000_000;

pub const MIN_SAMPLE_SIZE: u8 = 1;

pub const MAX_SAMPLE_SIZE: u8 = 10;

/// How the final colours are chosen from the boosted palette.
#[derive(Clone, Copy, Debug, PartialEq, Eq, Structural)]
pub enum ColorSelectionMode {
    Default,
    Brightness,
    HueShift,
}

/// Which routine reduces the pixels to a palette.
#[derive(Clone, Copy, Debug, PartialEq, Eq, Structural)]
pub enum DominantColorAlgorithm {
    ColorThief,
    Pigmnts,
}

/// The textual form in which colours are handed to the actuator.
#[derive(Clone, Copy, Debug, PartialEq, Eq, Structural)]
pub enum ColorFormat {
    Rgb,
    Rgbb,
    Hsb,
}

/// The settings of a run.
///
/// `capture_interval` is in millionths of a second, `hue_shift` in millionths
/// of a degree and `brightness_factor` in millionths.
pub struct DesktopDyeConfig {
    pub screen_id: Option<u32>,
    pub ha_endpoint: String,
    pub ha_token: String,
    pub ha_target_entity_id: String,
    pub sample_size: u8,
    pub algorithm: DominantColorAlgorithm,
    pub capture_interval: i64,
    pub mode: ColorSelectionMode,
    pub hue_shift: i64,
    pub color_format: ColorFormat,
    pub brightness_factor: u32,
}

/// The settings as a file gives them: each may be missing.
pub struct OptionalDesktopDyeConfig {
    pub screen_id: Option<u32>,
    pub ha_endpoint: Option<String>,
    pub ha_token: Option<String>,
    pub ha_target_entity_id: Option<String>,
    pub sample_size: Option<u8>,
    pub algorithm: Option<DominantColorAlgorithm>,
    pub capture_interval: Option<i64>,
    pub mode: Option<ColorSelectionMode>,
    pub hue_shift: Option<i64>,
    pub color_format: Option<ColorFormat>,
    pub brightness_factor: Option<u32>,
}

/// What is wrong with settings read from a file.
#[derive(Clone, Copy, Debug, PartialEq, Eq, Structural)]
pub enum ConfigIssue {
    MissingEndpoint,
    /// The endpoint starts with neither `http://` nor `https://`.
    EndpointScheme,
    /// The endpoint ends with a slash.
    EndpointTrailingSlash,
    /// The endpoint does not hold exactly two colons.
    EndpointColons,
    MissingToken,
    MissingTargetEntity,
    /// The sample size is not between one and ten.
    SampleSizeOutOfRange,
    /// The capture interval is not greater than nothing.
    CaptureIntervalNotPositive,
    /// The hue shift is beyond what the hue fan can be computed for.
    HueShiftOutOfRange,
}

/// Whether `text` begins with `prefix`.
pub open spec fn starts_with(text: Seq<char>, prefix: Seq<char>) -> bool {
    prefix.len() <= text.len() && text.subrange(0, prefix.len() as int) == prefix
}

/// How often `c` occurs in `text`.
pub open spec fn count_char(text: Seq<char>, c: char) -> nat
    decreases text.len(),
{
    if text.len() == 0 {
        0
    } else {
        count_char(text.drop_last(), c) + if text.last() == c {
            1nat
        } else {
            0nat
        }
    }
}

/// One issue where a condition holds, none where it does not.
pub open spec fn issue_if(condition: bool, issue: ConfigIssue) -> Seq<ConfigIssue> {
    if condition {
        seq![issue]
    } else {
        Seq::empty()
    }
}

/// Whether an endpoint lacks both of the schemes.
pub open spec fn lacks_scheme(endpoint: Seq<char>) -> bool {
    !starts_with(endpoint, "http://"@) && !starts_with(endpoint, "https://"@)
}

/// The issues of an endpoint, in the order in which they are reported.
pub open spec fn endpoint_issues(endpoint: Seq<char>) -> Seq<ConfigIssue> {
    issue_if(lacks_scheme(endpoint), ConfigIssue::EndpointScheme) + issue_if(
        endpoint.len() > 0 && endpoint.last() == '/',
        ConfigIssue::EndpointTrailingSlash,
    ) + issue_if(count_char(endpoint, ':') != 2, ConfigIssue::EndpointColons)
}

impl OptionalDesktopDyeConfig {
    /// The issues of the settings, in the order in which they are reported.
    pub open spec fn issues(&self) -> Seq<ConfigIssue> {
        (match self.ha_endpoint {
            None => seq![ConfigIssue::MissingEndpoint],
            Some(endpoint) => endpoint_issues(endpoint@),
        }) + issue_if(self.ha_token is None, ConfigIssue::MissingToken) + issue_if(
            self.ha_target_entity_id is None,
            ConfigIssue::MissingTargetEntity,
        ) + issue_if(
            self.sample_size matches Some(k) && !(MIN_SAMPLE_SIZE <= k <= MAX_SAMPLE_SIZE),
            ConfigIssue::SampleSizeOutOfRange,
        ) + issue_if(
            self.capture_interval matches Some(seconds) && seconds <= 0,
            ConfigIssue::CaptureIntervalNotPositive,
        ) + issue_if(
            self.hue_shift matches Some(shift) && !(-HUE_LIMIT <= shift <= HUE_LIMIT),
            ConfigIssue::HueShiftOutOfRange,
        )
    }

    /// The lines that report the issues of the settings, in the order of the
    /// issues.
    pub open spec fn messages(&self) -> Seq<Seq<char>> {
        Seq::new(self.issues().len(), |i: int| issue_text(self.issues()[i], *self))
    }
}

/// The endpoint of settings as text; nothing where it is missing.
pub open spec fn endpoint_text(settings: OptionalDesktopDyeConfig) -> Seq<char> {
    match settings.ha_endpoint {
        Some(endpoint) => endpoint@,
        None => ""@,
    }
}

/// The line that reports an issue of settings, with what was found in them.
pub open spec fn issue_text(issue: ConfigIssue, settings: OptionalDesktopDyeConfig) -> Seq<char> {
    match issue {
        ConfigIssue::MissingEndpoint => "Missing Home Assistant endpoint in config file"@,
        ConfigIssue::EndpointScheme =>
            "Home Assistant endpoint must start with http:// or https://. Found \""@
            + endpoint_text(settings) + "\""@,
        ConfigIssue::EndpointTrailingSlash =>
            "Home Assistant endpoint must not end with /. Found \""@ + endpoint_text(settings)
            + "\""@,
        ConfigIssue::EndpointColons =>
            "Home Assistant endpoint must contain exactly two ':', before the port. Found \""@
            + endpoint_text(settings) + "\""@,
        ConfigIssue::MissingToken => "Missing Home Assistant token in config file"@,
        ConfigIssue::MissingTargetEntity =>
            "Missing Home Assistant target entity ID in config file"@,
        ConfigIssue::SampleSizeOutOfRange => "Sample size must be between "@ + decimal(
            MIN_SAMPLE_SIZE as nat,
        ) + " and "@ + decimal(MAX_SAMPLE_SIZE as nat) + ". Found "@ + decimal(
            match settings.sample_size {
                Some(k) => k as nat,
                None => 0nat,
            },
        ),
        ConfigIssue::CaptureIntervalNotPositive =>
            "Capture interval must be greater than 0. Found "@ + plain_decimal(
            match settings.capture_interval {
                Some(seconds) => seconds as int,
                None => 0int,
            },
        ),
        ConfigIssue::HueShiftOutOfRange =>
            "Hue shift must be between -1000000000 and 1000000000. Found "@ + plain_decimal(
            match settings.hue_shift {
                Some(shift) => shift as int,
                None => 0int,
            },
        ),
    }
}

/// The texts of lines.
pub open spec fn texts(lines: Seq<String>) -> Seq<Seq<char>> {
    Seq::new(lines.len(), |i: int| lines[i]@)
}

/// Writes the line that reports an issue of settings, with what was found
/// in them.
pub fn describe_issue(issue: ConfigIssue, settings: &OptionalDesktopDyeConfig) -> (r: String)
    ensures
        r@ == issue_text(issue, *settings),
{
    let endpoint: &str = match &settings.ha_endpoint {
        Some(endpoint) => endpoint.as_str(),
        None => "",
    };
    let mut out: String = String::new();
    match issue {
        ConfigIssue::MissingEndpoint => {
            out.append("Missing Home Assistant endpoint in config file");
        },
        ConfigIssue::EndpointScheme => {
            out.append("Home Assistant endpoint must start with http:// or https://. Found \"");
            out.append(endpoint);
            out.append("\"");
        },
        ConfigIssue::EndpointTrailingSlash => {
            out.append("Home Assistant endpoint must not end with /. Found \"");
            out.append(endpoint);
            out.append("\"");
        },
        ConfigIssue::EndpointColons => {
            out.append(
                "Home Assistant endpoint must contain exactly two ':', before the port. Found \"",
            );
            out.append(endpoint);
            out.append("\"");
        },
        ConfigIssue::MissingToken => {
            out.append("Missing Home Assistant token in config file");
        },
        ConfigIssue::MissingTargetEntity => {
            out.append("Missing Home Assistant target entity ID in config file");
        },
        ConfigIssue::SampleSizeOutOfRange => {
            out.append("Sample size must be between ");
            push_decimal(&mut out, MIN_SAMPLE_SIZE as u64);
            out.append(" and ");
            push_decimal(&mut out, MAX_SAMPLE_SIZE as u64);
            out.append(". Found ");
            let found: u8 = match settings.sample_size {
                Some(k) => k,
                None => 0,
            };
            push_decimal(&mut out, found as u64);
        },
        ConfigIssue::CaptureIntervalNotPositive => {
            out.append("Capture interval must be greater than 0. Found ");
            let found: i64 = match settings.capture_interval {
                Some(seconds) => seconds,
                None => 0,
            };
            push_plain_decimal(&mut out, found);
        },
        ConfigIssue::HueShiftOutOfRange => {
            out.append("Hue shift must be between -1000000000 and 1000000000. Found ");
            let found: i64 = match settings.hue_shift {
                Some(shift) => shift,
                None => 0,
            };
            push_plain_decimal(&mut out, found);
        },
    }
    assert(out@ =~= issue_text(issue, *settings));
    out
}

/// The lines as a list: each behind a dash, one to a row.
pub open spec fn listed(lines: Seq<Seq<char>>) -> Seq<char>
    decreases lines.len(),
{
    if lines.len() == 0 {
        Seq::empty()
    } else if lines.len() == 1 {
        "  - "@ + lines[0]
    } else {
        listed(lines.drop_last()) + "\n"@ + "  - "@ + lines.last()
    }
}

/// The report on settings that are not in order: a heading and the list of
/// the lines.
pub open spec fn invalid_config_text(lines: Seq<Seq<char>>) -> Seq<char> {
    "Config file is invalid. Please fix the following errors:\n"@ + listed(lines)
}

/// Writes the report on settings that are not in order.
pub fn invalid_config_report(errors: &Vec<String>) -> (r: String)
    ensures
        r@ == invalid_config_text(texts(errors@)),
{
    let mut list: String = String::new();
    let mut i: usize = 0;
    while i < errors.len()
        invariant
            i <= errors.len(),
            list@ == listed(texts(errors@).take(i as int)),
        decreases errors.len() - i,
    {
        let ghost before = texts(errors@).take(i as int);
        let ghost after = texts(errors@).take(i + 1);
        assert(after.drop_last() =~= before);
        assert(after.last() == errors@[i as int]@);
        if i > 0 {
            list.append("\n");
        }
        list.append("  - ");
        list.append(errors[i].as_str());
        i += 1;
        assert(list@ =~= listed(after));
    }
    assert(texts(errors@).take(i as int) =~= texts(errors@));
    let mut out: String = String::from_str(
        "Config file is invalid. Please fix the following errors:\n",
    );
    out.append(list.as_str());
    out
}

impl DesktopDyeConfig {
    /// What the pipeline asks of its settings.
    pub open spec fn is_valid(&self) -> bool {
        &&& MIN_SAMPLE_SIZE <= self.sample_size <= MAX_SAMPLE_SIZE
        &&& -HUE_LIMIT <= self.hue_shift <= HUE_LIMIT
    }

    /// Tells whether the settings are what the pipeline asks for.
    pub fn check(&self) -> (r: bool)
        ensures
            r == self.is_valid(),
    {
        MIN_SAMPLE_SIZE <= self.sample_size && self.sample_size <= MAX_SAMPLE_SIZE && -HUE_LIMIT
            <= self.hue_shift && self.hue_shift <= HUE_LIMIT
    }

    /// Whether these are the settings that `optional` gives, with the
    /// defaults where it gives none.
    pub open spec fn completes(&self, optional: OptionalDesktopDyeConfig) -> bool {
        &&& self.screen_id == optional.screen_id
        &&& optional.ha_endpoint matches Some(endpoint) && self.ha_endpoint@ == endpoint@
        &&& optional.ha_token matches Some(token) && self.ha_token@ == token@
        &&& optional.ha_target_entity_id matches Some(entity) && self.ha_target_entity_id@
            == entity@
        &&& self.sample_size == match optional.sample_size {
            Some(k) => k,
            None => DEFAULT_SAMPLE_SIZE,
        }
        &&& self.algorithm == match optional.algorithm {
            Some(algorithm) => algorithm,
            None => DominantColorAlgorithm::ColorThief,
        }
        &&& self.capture_interval == match optional.capture_interval {
            Some(seconds) => seconds,
            None => DEFAULT_CAPTURE_INTERVAL,
        }
        &&& self.mode == match optional.mode {
            Some(mode) => mode,
            None => ColorSelectionMode::Default,
        }
        &&& self.hue_shift == match optional.hue_shift {
            Some(shift) => shift,
            None => DEFAULT_HUE_SHIFT,
        }
        &&& self.color_format == match optional.color_format {
            Some(format) => format,
            None => ColorFormat::Rgb,
        }
        &&& self.brightness_factor == match optional.brightness_factor {
            Some(factor) => factor,
            None => DEFAULT_BRIGHTNESS_FACTOR,
        }
    }

    /// Finds what is wrong with settings read from a file: nothing where
    /// they are in order.
    pub fn find_issues(optional_config: &OptionalDesktopDyeConfig) -> (errors: Vec<ConfigIssue>)
        ensures
            errors@ == optional_config.issues(),
    {
        let mut errors: Vec<ConfigIssue> = match &optional_config.ha_endpoint {
            None => {
                let mut missing: Vec<ConfigIssue> = Vec::new();
                missing.push(ConfigIssue::MissingEndpoint);
                assert(missing@ =~= seq![ConfigIssue::MissingEndpoint]);
                missing
            },
            Some(endpoint) => check_endpoint(endpoint.as_str()),
        };
        push_if(&mut errors, optional_config.ha_token.is_none(), ConfigIssue::MissingToken);
        push_if(
            &mut errors,
            optional_config.ha_target_entity_id.is_none(),
            ConfigIssue::MissingTargetEntity,
        );
        let bad_size: bool = match optional_config.sample_size {
            Some(k) => k < MIN_SAMPLE_SIZE || k > MAX_SAMPLE_SIZE,
            None => false,
        };
        push_if(&mut errors, bad_size, ConfigIssue::SampleSizeOutOfRange);
        let bad_interval: bool = match optional_config.capture_interval {
            Some(seconds) => seconds <= 0,
            None => false,
        };
        push_if(&mut errors, bad_interval, ConfigIssue::CaptureIntervalNotPositive);
        let bad_shift: bool = match optional_config.hue_shift {
            Some(shift) => shift < -HUE_LIMIT || shift > HUE_LIMIT,
            None => false,
        };
        push_if(&mut errors, bad_shift, ConfigIssue::HueShiftOutOfRange);
        errors
    }

    /// Lists what is wrong with settings read from a file, one line for each
    /// issue, in the order in which the issues are found: nothing where the
    /// settings are in order.
    pub fn validate_optional_config(optional_config: &OptionalDesktopDyeConfig) -> (errors: Vec<
        String,
    >)
        ensures
            texts(errors@) == optional_config.messages(),
    {
        let issues: Vec<ConfigIssue> = Self::find_issues(optional_config);
        let mut errors: Vec<String> = Vec::new();
        let mut i: usize = 0;
        while i < issues.len()
            invariant
                i <= issues.len(),
                issues@ == optional_config.issues(),
                errors@.len() == i,
                forall|j: int|
                    0 <= j < i ==> (#[trigger] errors@[j])@ == issue_text(
                        issues@[j],
                        *optional_config,
                    ),
            decreases issues.len() - i,
        {
            errors.push(describe_issue(issues[i], optional_config));
            i += 1;
        }
        assert(texts(errors@) =~= optional_config.messages());
        errors
    }

    /// Completes settings read from a file with the defaults, or lists what
    /// is wrong with them.
    pub fn from_optional(optional_config: OptionalDesktopDyeConfig) -> (r: Result<
        DesktopDyeConfig,
        Vec<ConfigIssue>,
    >)
        ensures
            match r {
                Ok(config) => {
                    &&& optional_config.issues().len() == 0
                    &&& config.completes(optional_config)
                    &&& config.is_valid()
                },
                Err(errors) => errors@ == optional_config.issues() && errors.len() > 0,
            },
    {
        let errors: Vec<ConfigIssue> = Self::find_issues(&optional_config);
        if errors.len() > 0 {
            return Err(errors);
        }
        let OptionalDesktopDyeConfig {
            screen_id,
            ha_endpoint,
            ha_token,
            ha_target_entity_id,
            sample_size,
            algorithm,
            capture_interval,
            mode,
            hue_shift,
            color_format,
            brightness_factor,
        } = optional_config;
        match (ha_endpoint, ha_token, ha_target_entity_id) {
            (Some(endpoint), Some(token), Some(entity)) => Ok(
                DesktopDyeConfig {
                    screen_id,
                    ha_endpoint: endpoint,
                    ha_token: token,
                    ha_target_entity_id: entity,
                    sample_size: match sample_size {
                        Some(k) => k,
                        None => DEFAULT_SAMPLE_SIZE,
                    },
                    algorithm: match algorithm {
                        Some(algorithm) => algorithm,
                        None => DominantColorAlgorithm::ColorThief,
                    },
                    capture_interval: match capture_interval {
                        Some(seconds) => seconds,
                        None => DEFAULT_CAPTURE_INTERVAL,
                    },
                    mode: match mode {
                        Some(mode) => mode,
                        None => ColorSelectionMode::Default,
                    },
                    hue_shift: match hue_shift {
                        Some(shift) => shift,
                        None => DEFAULT_HUE_SHIFT,
                    },
                    color_format: match color_format {
                        Some(format) => format,
                        None => ColorFormat::Rgb,
                    },
                    brightness_factor: match brightness_factor {
                        Some(factor) => factor,
                        None => DEFAULT_BRIGHTNESS_FACTOR,
                    },
                },
            ),
            _ => {
                assert(false);
                Err(errors)
            },
        }
    }
}

fn push_if(errors: &mut Vec<ConfigIssue>, condition: bool, issue: ConfigIssue)
    ensures
        final(errors)@ == old(errors)@ + issue_if(condition, issue),
{
    if condition {
        errors.push(issue);
    }
    assert(errors@ =~= old(errors)@ + issue_if(condition, issue));
}

fn check_endpoint(text: &str) -> (errors: Vec<ConfigIssue>)
    ensures
        errors@ == endpoint_issues(text@),
{
    let mut errors: Vec<ConfigIssue> = Vec::new();
    let lacking: bool = !has_prefix(text, "http://") && !has_prefix(text, "https://");
    push_if(&mut errors, lacking, ConfigIssue::EndpointScheme);
    assert(errors@ =~= issue_if(lacks_scheme(text@), ConfigIssue::EndpointScheme));
    push_if(&mut errors, ends_with_slash(text), ConfigIssue::EndpointTrailingSlash);
    push_if(&mut errors, count_of(text, ':') != 2, ConfigIssue::EndpointColons);
    errors
}

fn has_prefix(text: &str, prefix: &str) -> (r: bool)
    ensures
        r == starts_with(text@, prefix@),
{
    let size: usize = prefix.unicode_len();
    if size > text.unicode_len() {
        return false;
    }
    let mut i: usize = 0;
    while i < size
        invariant
            i <= size,
            size == prefix@.len(),
            size <= text@.len(),
            text@.subrange(0, i as int) == prefix@.subrange(0, i as int),
        decreases size - i,
    {
        if text.get_char(i) != prefix.get_char(i) {
            assert(text@.subrange(0, size as int)[i as int] != prefix@[i as int]);
            return false;
        }
        i += 1;
        assert(text@.subrange(0, i as int) =~= text@.subrange(0, i - 1).push(text@[i - 1]));
        assert(prefix@.subrange(0, i as int) =~= prefix@.subrange(0, i - 1).push(prefix@[i - 1]));
    }
    assert(prefix@.subrange(0, size as int) =~= prefix@);
    true
}

fn ends_with_slash(text: &str) -> (r: bool)
    ensures
        r == (text@.len() > 0 && text@.last() == '/'),
{
    let size: usize = text.unicode_len();
    size > 0 && text.get_char(size - 1) == '/'
}

fn count_of(text: &str, c: char) -> (r: usize)
    ensures
        r == count_char(text@, c),
{
    let size: usize = text.unicode_len();
    let mut count: usize = 0;
    let mut i: usize = 0;
    while i < size
        invariant
            i <= size,
            size == text@.len(),
            count == count_char(text@.subrange(0, i as int), c),
            count <= i,
        decreases size - i,
    {
        assert(text@.subrange(0, i + 1).drop_last() =~= text@.subrange(0, i as int));
        if text.get_char(i) == c {
            count += 1;
        }
        i += 1;
    }
    assert(text@.subrange(0, size as int) =~= text@);
    count
}

impl ColorSelectionMode {
    /// The name of the mode as it is shown.
    pub open spec fn label_text(&self) -> Seq<char> {
        match self {
            ColorSelectionMode::Default => "Default"@,
            ColorSelectionMode::Brightness => "Brightness"@,
            ColorSelectionMode::HueShift => "Hue Shift"@,
        }
    }

    pub fn label(&self) -> (r: String)
        ensures
            r@ == self.label_text(),
    {
        match self {
            ColorSelectionMode::Default => String::from_str("Default"),
            ColorSelectionMode::Brightness => String::from_str("Brightness"),
            ColorSelectionMode::HueShift => String::from_str("Hue Shift"),
        }
    }
}

impl ColorFormat {
    /// The name of the format as it is shown.
    pub open spec fn label_text(&self) -> Seq<char> {
        match self {
            ColorFormat::Rgb => "RGB"@,
            ColorFormat::Rgbb => "RGBB"@,
            ColorFormat::Hsb => "HSB"@,
        }
    }

    pub fn label(&self) -> (r: String)
        ensures
            r@ == self.label_text(),
    {
        match self {
            ColorFormat::Rgb => String::from_str("RGB"),
            ColorFormat::Rgbb => String::from_str("RGBB"),
            ColorFormat::Hsb => String::from_str("HSB"),
        }
    }
}

} // verus!
