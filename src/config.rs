//! The rules of the batch configuration: the time steps, the admissible hourly
//! increments, the raster templates and the hours of a processed day.
use vstd::prelude::*;

use crate::text::{contains_text, occurs_at, same_text, trim_text, trimmed};

verus! {

/// How far apart the processed dates lie.
#[derive(Debug, Clone, Copy, PartialEq, Eq, Structural)]
pub enum TimeStep {
    Daily,
    Weekly,
    Monthly,
}

/// A time step that is none of `daily`, `weekly`, `monthly`.
#[derive(Debug, Clone, Copy, PartialEq, Eq, Structural)]
pub struct TimeStepParseError;

impl TimeStepParseError {
    /// The text of the error.
    pub fn to_string(&self) -> (r: String)
        ensures
            r@ == "invalid time step"@,
    {
        "invalid time step".to_string()
    }
}

/// The name of each time step in a configuration.
pub open spec fn time_step_name(t: TimeStep) -> Seq<char> {
    match t {
        TimeStep::Daily => "daily"@,
        TimeStep::Weekly => "weekly"@,
        TimeStep::Monthly => "monthly"@,
    }
}

impl TimeStep {
    /// The time step of a name: `daily`, `weekly` or `monthly`.
    pub fn from_name(name: &str) -> (r: Result<TimeStep, TimeStepParseError>)
        ensures
            r matches Ok(t) ==> time_step_name(t) == name@,
            r is Err <==> (name@ != "daily"@ && name@ != "weekly"@ && name@ != "monthly"@),
    {
        if same_text(name, "daily") {
            Ok(TimeStep::Daily)
        } else if same_text(name, "weekly") {
            Ok(TimeStep::Weekly)
        } else if same_text(name, "monthly") {
            Ok(TimeStep::Monthly)
        } else {
            Err(TimeStepParseError)
        }
    }
}

/// A family of raster files: where they lie, how their names are built from a
/// date, and how that date is written.
#[derive(Debug, Clone)]
pub struct RasterFile {
    pub name: String,
    pub base_directory: String,
    pub filename_pattern: String,
    pub date_format: String,
}

/// The hourly increments that divide a day evenly.
pub open spec fn spec_valid_hourly_increment(h: u8) -> bool {
    h == 1 || h == 2 || h == 3 || h == 4 || h == 6 || h == 8 || h == 12
}

/// Whether `h` is one of 1, 2, 3, 4, 6, 8, 12.
pub fn is_valid_hourly_increment(h: u8) -> (r: bool)
    ensures
        r == spec_valid_hourly_increment(h),
{
    h == 1 || h == 2 || h == 3 || h == 4 || h == 6 || h == 8 || h == 12
}

/// The hours of a processed day: 0, `increment`, 2 * `increment`, ... while
/// the step count stays below `24 / increment`. None for an increment of 0.
pub fn day_hours(increment: u8) -> (r: Vec<u32>)
    ensures
        increment == 0 ==> r@.len() == 0,
        increment > 0 ==> r@.len() == 24int / (increment as int),
        forall|i: int| 0 <= i < r@.len() ==> #[trigger] r@[i] == i * increment,
{
    let mut r: Vec<u32> = Vec::new();
    if increment == 0 {
        return r;
    }
    let inc = increment as u32;
    let steps: u32 = 24 / inc;
    let mut k: u32 = 0;
    while k < steps
        invariant
            inc == increment as u32,
            inc > 0,
            steps == 24u32 / inc,
            k <= steps,
            r@.len() == k,
            forall|i: int| 0 <= i < r@.len() ==> #[trigger] r@[i] == i * increment,
        decreases steps - k,
    {
        assert(k * inc <= 24) by (nonlinear_arith)
            requires
                k < steps,
                steps == 24u32 / inc,
                inc > 0,
        ;
        r.push(k * inc);
        k = k + 1;
    }
    r
}

/// A rule that a raster template breaks.
#[derive(Debug, Clone, Copy, PartialEq, Eq, Structural)]
pub enum TemplateError {
    EmptyName,
    EmptyBaseDirectory,
    EmptyFilenamePattern,
    EmptyDateFormat,
    MissingPlaceholder,
}

impl TemplateError {
    /// The text of the error.
    pub fn to_string(&self) -> (r: String)
        ensures
            r@ == template_error_text(*self),
    {
        match self {
            TemplateError::EmptyName => "raster template name cannot be empty".to_string(),
            TemplateError::EmptyBaseDirectory => {
                "raster template base_directory cannot be empty".to_string()
            },
            TemplateError::EmptyFilenamePattern => {
                "raster template filename_pattern cannot be empty".to_string()
            },
            TemplateError::EmptyDateFormat => {
                "raster template date_format cannot be empty".to_string()
            },
            TemplateError::MissingPlaceholder => {
                "raster template filename_pattern must contain '{}' placeholder".to_string()
            },
        }
    }
}

/// The text of each template error.
pub open spec fn template_error_text(e: TemplateError) -> Seq<char> {
    match e {
        TemplateError::EmptyName => "raster template name cannot be empty"@,
        TemplateError::EmptyBaseDirectory => "raster template base_directory cannot be empty"@,
        TemplateError::EmptyFilenamePattern => "raster template filename_pattern cannot be empty"@,
        TemplateError::EmptyDateFormat => "raster template date_format cannot be empty"@,
        TemplateError::MissingPlaceholder => "raster template filename_pattern must contain '{}' placeholder"@,
    }
}

/// A field that is empty once trimmed.
pub open spec fn is_blank(s: Seq<char>) -> bool {
    trimmed(s).len() == 0
}

/// The date placeholder of a filename pattern.
pub open spec fn placeholder() -> Seq<char> {
    "{}"@
}

/// The first rule, in the order name, base directory, filename pattern, date
/// format, placeholder, that a template breaks.
pub open spec fn template_check(
    name: Seq<char>,
    base_directory: Seq<char>,
    filename_pattern: Seq<char>,
    date_format: Seq<char>,
) -> Result<(), TemplateError> {
    if is_blank(name) {
        Err(TemplateError::EmptyName)
    } else if is_blank(base_directory) {
        Err(TemplateError::EmptyBaseDirectory)
    } else if is_blank(filename_pattern) {
        Err(TemplateError::EmptyFilenamePattern)
    } else if is_blank(date_format) {
        Err(TemplateError::EmptyDateFormat)
    } else if !(exists|i: int| occurs_at(filename_pattern, placeholder(), i)) {
        Err(TemplateError::MissingPlaceholder)
    } else {
        Ok(())
    }
}

impl RasterFile {
    /// Checks that no field is blank and that the filename pattern holds the
    /// `{}` placeholder for the date.
    pub fn validate(&self) -> (r: Result<(), TemplateError>)
        ensures
            r == template_check(
                self.name@,
                self.base_directory@,
                self.filename_pattern@,
                self.date_format@,
            ),
    {
        if trim_text(self.name.as_str()).is_empty() {
            return Err(TemplateError::EmptyName);
        }
        if trim_text(self.base_directory.as_str()).is_empty() {
            return Err(TemplateError::EmptyBaseDirectory);
        }
        if trim_text(self.filename_pattern.as_str()).is_empty() {
            return Err(TemplateError::EmptyFilenamePattern);
        }
        if trim_text(self.date_format.as_str()).is_empty() {
            return Err(TemplateError::EmptyDateFormat);
        }
        let p = "{}";
        assert(p@ == placeholder());
        let found = contains_text(self.filename_pattern.as_str(), p);
        if !found {
            return Err(TemplateError::MissingPlaceholder);
        }
        Ok(())
    }
}

/// The first rule that one of `templates` breaks, scanning them in order.
pub open spec fn first_template_error(templates: Seq<RasterFile>) -> Option<TemplateError>
    decreases templates.len(),
{
    if templates.len() == 0 {
        None
    } else {
        let t = templates[0];
        match template_check(t.name@, t.base_directory@, t.filename_pattern@, t.date_format@) {
            Err(e) => Some(e),
            Ok(_) => first_template_error(templates.drop_first()),
        }
    }
}

/// A rule of the configuration that its settings break.
#[derive(Debug, Clone, Copy, PartialEq, Eq, Structural)]
pub enum SettingsError {
    DateOrder,
    HourlyIncrement,
    EmptyModelId,
    Template(TemplateError),
}

/// The first rule, in the order date order, hourly increment, model id, raster
/// templates, that the settings break. Dates are day numbers.
pub open spec fn settings_check(
    start_day: i64,
    end_day: i64,
    hourly_increment: u8,
    model_id: Seq<char>,
    templates: Seq<RasterFile>,
) -> Result<(), SettingsError> {
    if start_day > end_day {
        Err(SettingsError::DateOrder)
    } else if !spec_valid_hourly_increment(hourly_increment) {
        Err(SettingsError::HourlyIncrement)
    } else if is_blank(model_id) {
        Err(SettingsError::EmptyModelId)
    } else {
        match first_template_error(templates) {
            Some(e) => Err(SettingsError::Template(e)),
            None => Ok(()),
        }
    }
}

/// Checks the settings of a configuration: the start date (a day number) is
/// not after the end date, the hourly increment divides a day, the model id is
/// not blank, and every raster template is valid.
pub fn check_settings(
    start_day: i64,
    end_day: i64,
    hourly_increment: u8,
    model_id: &str,
    templates: &Vec<RasterFile>,
) -> (r: Result<(), SettingsError>)
    ensures
        r == settings_check(start_day, end_day, hourly_increment, model_id@, templates@),
{
    if start_day > end_day {
        return Err(SettingsError::DateOrder);
    }
    if !is_valid_hourly_increment(hourly_increment) {
        return Err(SettingsError::HourlyIncrement);
    }
    if trim_text(model_id).is_empty() {
        return Err(SettingsError::EmptyModelId);
    }
    let mut i: usize = 0;
    assert(templates@.skip(0) =~= templates@);
    while i < templates.len()
        invariant
            0 <= i <= templates@.len(),
            start_day <= end_day,
            spec_valid_hourly_increment(hourly_increment),
            !is_blank(model_id@),
            first_template_error(templates@) == first_template_error(templates@.skip(i as int)),
        decreases templates@.len() - i,
    {
        let res = templates[i].validate();
        assert(templates@.skip(i as int).drop_first() =~= templates@.skip(i as int + 1));
        assert(templates@.skip(i as int)[0] == templates@[i as int]);
        match res {
            Err(e) => {
                return Err(SettingsError::Template(e));
            },
            Ok(()) => {},
        }
        i = i + 1;
    }
    assert(templates@.skip(i as int).len() == 0);
    Ok(())
}

/// The `strftime` pattern for each date format a template may name; an
/// unknown one is written as `YYYYMMDD`.
pub open spec fn spec_date_pattern(format: Seq<char>) -> Seq<char> {
    if format == "YYYY-MM-DD"@ {
        "%Y-%m-%d"@
    } else if format == "YYYY_MM_DD"@ {
        "%Y_%m_%d"@
    } else {
        "%Y%m%d"@
    }
}

/// The `strftime` pattern that writes a date in a template's date format.
pub fn date_pattern(format: &str) -> (r: &'static str)
    ensures
        r@ == spec_date_pattern(format@),
{
    if same_text(format, "YYYY-MM-DD") {
        "%Y-%m-%d"
    } else if same_text(format, "YYYY_MM_DD") {
        "%Y_%m_%d"
    } else {
        "%Y%m%d"
    }
}

} // verus!
