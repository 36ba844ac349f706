//! A single catalog entry: a language's name, its source-file extension, and
//! the launch line used by its execution image.

use vstd::prelude::*;

verus! {

/// The mathematical value of a `Language`: its three fields as character
/// sequences.
pub struct LanguageV {
    pub name: Seq<char>,
    pub extension: Seq<char>,
    pub launch: Seq<char>,
}

/// One supported language, as parsed from its catalog file.
#[derive(Debug)]
pub struct Language {
    name: String,
    extension: String,
    launch: String,
}

impl View for Language {
    type V = LanguageV;

    closed spec fn view(&self) -> LanguageV {
        LanguageV { name: self.name@, extension: self.extension@, launch: self.launch@ }
    }
}

impl Language {
    pub fn new(name: String, extension: String, launch: String) -> (r: Self)
        ensures
            r@.name == name@,
            r@.extension == extension@,
            r@.launch == launch@,
    {
        Self { name, extension, launch }
    }

    pub fn get_name(&self) -> (r: String)
        ensures
            r@ == self@.name,
    {
        self.name.clone()
    }

    pub fn get_extension(&self) -> (r: String)
        ensures
            r@ == self@.extension,
    {
        self.extension.clone()
    }

    pub fn get_launch(&self) -> (r: String)
        ensures
            r@ == self@.launch,
    {
        self.launch.clone()
    }
}

} // verus!
