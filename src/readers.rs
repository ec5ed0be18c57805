//! Raster sources: the file kinds the library knows, and which one a path
//! names.
use vstd::prelude::*;

use crate::text::{ends_with_text, extension_of, has_suffix, path_extension};
use vstd::string::StringExecFns;

verus! {

/// A failure while reading a raster, with its reason.
#[derive(Debug)]
pub enum ReadError {
    GeoTiff(String),
    NetCDF(String),
    Zarr(String),
}

/// A path that names no known raster kind.
#[derive(Debug, Clone, Copy, PartialEq, Eq, Structural)]
pub enum FileError {
    UnknownFileType,
}

/// The raster kinds the library knows.
#[derive(Debug, Clone, Copy, PartialEq, Eq, Structural)]
pub enum FileType {
    GeoTiff,
    NetCDF,
    Zarr,
}

/// A GeoTIFF raster on disk.
#[derive(Debug)]
pub struct GeoTiffReader {
    pub file_name: String,
}

/// A NetCDF raster on disk.
#[derive(Debug)]
pub struct NcReader {
    pub file_name: String,
}

/// A Zarr store on disk.
#[derive(Debug)]
pub struct ZarrReader {
    pub file_name: String,
}

/// The raster kind named by an extension.
pub open spec fn file_type_of_extension(ext: Option<Seq<char>>) -> Result<FileType, FileError> {
    match ext {
        Some(e) => if e == "tif"@ {
            Ok(FileType::GeoTiff)
        } else if e == "nc"@ {
            Ok(FileType::NetCDF)
        } else if e == "zarr"@ {
            Ok(FileType::Zarr)
        } else {
            Err(FileError::UnknownFileType)
        },
        None => Err(FileError::UnknownFileType),
    }
}

/// The raster kind of a path, from its extension: `tif`, `nc` or `zarr`.
pub fn reader_from_filetype(path: &str) -> (r: Result<FileType, FileError>)
    ensures
        r == file_type_of_extension(path_extension(path@)),
{
    match extension_of(path) {
        Some(e) => {
            if e == "tif".to_string() {
                Ok(FileType::GeoTiff)
            } else if e == "nc".to_string() {
                Ok(FileType::NetCDF)
            } else if e == "zarr".to_string() {
                Ok(FileType::Zarr)
            } else {
                Err(FileError::UnknownFileType)
            }
        },
        None => Err(FileError::UnknownFileType),
    }
}

/// Whether the processing pipeline reads a path: GeoTIFF and NetCDF files.
pub fn is_supported_file_type(path: &str) -> (r: bool)
    ensures
        r == (path_extension(path@) == Some("tif"@) || path_extension(path@) == Some("nc"@)),
{
    match extension_of(path) {
        Some(e) => e == "tif".to_string() || e == "nc".to_string(),
        None => false,
    }
}

/// The path under which GDAL opens a raster variable: a NetCDF file (a path
/// ending in `.nc`) is opened as `NETCDF:<path>:<variable>`, any other file by
/// its path.
pub fn gdal_path(file_path: &str, variable_name: &str) -> (r: String)
    ensures
        has_suffix(file_path@, ".nc"@) ==> r@ == "NETCDF:"@ + file_path@ + ":"@ + variable_name@,
        !has_suffix(file_path@, ".nc"@) ==> r@ == file_path@,
{
    if ends_with_text(file_path, ".nc") {
        let mut r = "NETCDF:".to_string();
        r.append(file_path);
        r.append(":");
        r.append(variable_name);
        r
    } else {
        file_path.to_string()
    }
}

} // verus!
