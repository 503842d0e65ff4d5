//! Archives that a scan has identified.

use vstd::prelude::*;
use crate::iwad_data::{IWadData, IWadID};
use crate::pwad_data::PWadData;

verus! {

/// An add-on archive found on disk.
#[derive(Clone, Debug)]
pub struct PWadObject {
    pub data: PWadData,
    pub filename: String,
    pub checksum: u32,
}

/// What a `PWadObject` holds, its path as text.
pub struct PWadObjectView {
    pub data: PWadData,
    pub filename: Seq<char>,
    pub checksum: u32,
}

impl DeepView for PWadObject {
    type V = PWadObjectView;

    open spec fn deep_view(&self) -> PWadObjectView {
        PWadObjectView { data: self.data, filename: self.filename@, checksum: self.checksum }
    }
}

impl PWadObject {
    pub fn new(data: &PWadData, filename: &str, checksum: u32) -> (pwad: PWadObject)
        ensures
            pwad.deep_view() == (PWadObjectView { data: *data, filename: filename@, checksum }),
    {
        PWadObject { data: *data, filename: filename.to_owned(), checksum }
    }

    /// The title that the add-on belongs to.
    pub fn id(&self) -> (id: IWadID)
        ensures
            id == self.data.id,
    {
        self.data.id
    }

    pub fn name(&self) -> (name: &str)
        ensures
            name == self.data.name,
    {
        self.data.name
    }

    pub fn filename(&self) -> (filename: &str)
        ensures
            filename@ == self.filename@,
    {
        self.filename.as_str()
    }

    pub fn checksum(&self) -> (checksum: u32)
        ensures
            checksum == self.checksum,
    {
        self.checksum
    }
}

/// A primary archive found on disk, with the add-ons found for its title.
#[derive(Clone, Debug)]
pub struct IWadObject {
    pub data: IWadData,
    pub filename: String,
    pub checksum: u32,
    /// The paths of the add-ons of this title, in the order of the scan.
    pub pwad_files: Vec<String>,
    /// The names of those add-ons, each once, in ascending order.
    pub pwad_names: Vec<String>,
}

/// What an `IWadObject` holds, its strings as text.
pub struct IWadObjectView {
    pub data: IWadData,
    pub filename: Seq<char>,
    pub checksum: u32,
    pub pwad_files: Seq<Seq<char>>,
    pub pwad_names: Seq<Seq<char>>,
}

impl DeepView for IWadObject {
    type V = IWadObjectView;

    open spec fn deep_view(&self) -> IWadObjectView {
        IWadObjectView {
            data: self.data,
            filename: self.filename@,
            checksum: self.checksum,
            pwad_files: self.pwad_files.deep_view(),
            pwad_names: self.pwad_names.deep_view(),
        }
    }
}

impl IWadObject {
    pub fn new(
        data: &IWadData,
        filename: &str,
        checksum: u32,
        pwad_files: Vec<String>,
        pwad_names: Vec<String>,
    ) -> (iwad: IWadObject)
        ensures
            iwad.deep_view() == (IWadObjectView {
                data: *data,
                filename: filename@,
                checksum,
                pwad_files: pwad_files.deep_view(),
                pwad_names: pwad_names.deep_view(),
            }),
    {
        IWadObject { data: *data, filename: filename.to_owned(), checksum, pwad_files, pwad_names }
    }

    /// The title of the archive.
    pub fn id(&self) -> (id: IWadID)
        ensures
            id == self.data.id,
    {
        self.data.id
    }

    pub fn name(&self) -> (name: &str)
        ensures
            name == self.data.name,
    {
        self.data.name
    }

    pub fn version(&self) -> (version: &str)
        ensures
            version == self.data.version,
    {
        self.data.version
    }

    pub fn filename(&self) -> (filename: &str)
        ensures
            filename@ == self.filename@,
    {
        self.filename.as_str()
    }

    pub fn checksum(&self) -> (checksum: u32)
        ensures
            checksum == self.checksum,
    {
        self.checksum
    }

    pub fn pwad_files(&self) -> (files: &Vec<String>)
        ensures
            files == &self.pwad_files,
    {
        &self.pwad_files
    }

    pub fn pwad_names(&self) -> (names: &Vec<String>)
        ensures
            names == &self.pwad_names,
    {
        &self.pwad_names
    }
}

} // verus!
