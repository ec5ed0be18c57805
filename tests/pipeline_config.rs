use boreas::config::{
    check_settings, date_pattern, day_hours, is_valid_hourly_increment, RasterFile,
    SettingsError, TemplateError, TimeStep, TimeStepParseError,
};
use boreas::readers::{gdal_path, is_supported_file_type, reader_from_filetype, FileError, FileType};
use boreas::sat_bands::Satellites;

fn template(name: &str, dir: &str, pattern: &str, format: &str) -> RasterFile {
    RasterFile {
        name: name.to_string(),
        base_directory: dir.to_string(),
        filename_pattern: pattern.to_string(),
        date_format: format.to_string(),
    }
}

#[test]
fn file_types_by_extension() {
    assert_eq!(reader_from_filetype("data/sst_20230101.tif"), Ok(FileType::GeoTiff));
    assert_eq!(reader_from_filetype("chl.nc"), Ok(FileType::NetCDF));
    assert_eq!(reader_from_filetype("/tmp/store.zarr"), Ok(FileType::Zarr));
    assert_eq!(reader_from_filetype("archive.tar.nc"), Ok(FileType::NetCDF));
    assert_eq!(reader_from_filetype("notes.txt"), Err(FileError::UnknownFileType));
    assert_eq!(reader_from_filetype("tif"), Err(FileError::UnknownFileType));
    assert_eq!(reader_from_filetype(".nc"), Err(FileError::UnknownFileType));
    assert_eq!(reader_from_filetype("image.TIF"), Err(FileError::UnknownFileType));
}

#[test]
fn supported_file_types() {
    assert!(is_supported_file_type("a/b/c.tif"));
    assert!(is_supported_file_type("c.nc"));
    assert!(!is_supported_file_type("c.zarr"));
    assert!(!is_supported_file_type("c"));
    assert!(!is_supported_file_type("tif"));
}

#[test]
fn time_step_names() {
    assert_eq!(TimeStep::from_name("daily"), Ok(TimeStep::Daily));
    assert_eq!(TimeStep::from_name("weekly"), Ok(TimeStep::Weekly));
    assert_eq!(TimeStep::from_name("monthly"), Ok(TimeStep::Monthly));
    assert_eq!(TimeStep::from_name("Daily"), Err(TimeStepParseError));
    assert_eq!(TimeStep::from_name(""), Err(TimeStepParseError));
    assert_eq!(TimeStepParseError.to_string(), "invalid time step");
}

#[test]
fn hourly_increments() {
    let valid: Vec<u8> = (0..=255u8).filter(|h| is_valid_hourly_increment(*h)).collect();
    assert_eq!(valid, vec![1, 2, 3, 4, 6, 8, 12]);
}

#[test]
fn hours_of_a_day() {
    assert_eq!(day_hours(6), vec![0, 6, 12, 18]);
    assert_eq!(day_hours(12), vec![0, 12]);
    assert_eq!(day_hours(5), vec![0, 5, 10, 15]);
    assert_eq!(day_hours(1).len(), 24);
    assert_eq!(day_hours(0), Vec::<u32>::new());
    assert_eq!(day_hours(25), Vec::<u32>::new());
}

#[test]
fn template_rules() {
    assert_eq!(template("chl", "/data", "chl_{}.tif", "YYYYMMDD").validate(), Ok(()));
    assert_eq!(
        template("  ", "/data", "chl_{}.tif", "YYYYMMDD").validate(),
        Err(TemplateError::EmptyName)
    );
    assert_eq!(
        template("chl", "", "chl_{}.tif", "YYYYMMDD").validate(),
        Err(TemplateError::EmptyBaseDirectory)
    );
    assert_eq!(
        template("chl", "/data", " \t", "YYYYMMDD").validate(),
        Err(TemplateError::EmptyFilenamePattern)
    );
    assert_eq!(
        template("chl", "/data", "chl_{}.tif", "\n").validate(),
        Err(TemplateError::EmptyDateFormat)
    );
    assert_eq!(
        template("chl", "/data", "chl_{ }.tif", "YYYYMMDD").validate(),
        Err(TemplateError::MissingPlaceholder)
    );
    assert_eq!(
        TemplateError::MissingPlaceholder.to_string(),
        "raster template filename_pattern must contain '{}' placeholder"
    );
}

#[test]
fn settings_rules() {
    let good = vec![template("chl", "/data", "chl_{}.tif", "YYYYMMDD")];
    assert_eq!(check_settings(10, 10, 6, "model", &good), Ok(()));
    assert_eq!(check_settings(11, 10, 6, "model", &good), Err(SettingsError::DateOrder));
    assert_eq!(check_settings(1, 10, 5, "model", &good), Err(SettingsError::HourlyIncrement));
    assert_eq!(check_settings(1, 10, 6, "   ", &good), Err(SettingsError::EmptyModelId));
    let bad = vec![
        template("chl", "/data", "chl_{}.tif", "YYYYMMDD"),
        template("sst", "/data", "sst.tif", "YYYYMMDD"),
        template("", "/data", "x_{}.tif", "YYYYMMDD"),
    ];
    assert_eq!(
        check_settings(1, 10, 6, "model", &bad),
        Err(SettingsError::Template(TemplateError::MissingPlaceholder))
    );
    assert_eq!(check_settings(1, 10, 6, "model", &vec![]), Ok(()));
}

#[test]
fn date_patterns() {
    assert_eq!(date_pattern("YYYYMMDD"), "%Y%m%d");
    assert_eq!(date_pattern("YYYY-MM-DD"), "%Y-%m-%d");
    assert_eq!(date_pattern("YYYY_MM_DD"), "%Y_%m_%d");
    assert_eq!(date_pattern("DD/MM/YYYY"), "%Y%m%d");
}

#[test]
fn gdal_paths() {
    assert_eq!(gdal_path("/data/chl.nc", "chlor_a"), "NETCDF:/data/chl.nc:chlor_a");
    assert_eq!(gdal_path("/data/sst.tif", "sst"), "/data/sst.tif");
    assert_eq!(gdal_path("nc", "x"), "nc");
}

#[test]
fn sensor_names() {
    assert_eq!(Satellites::SeaWiFS.name(), "SeaWiFS");
    assert_eq!(Satellites::Modis.name(), "MODIS");
}
