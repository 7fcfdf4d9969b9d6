//! How the annotator describes itself.

use std::collections::HashMap;
use vstd::prelude::*;
use vstd::string::*;

verus! {

/// Name under which the annotator presents itself unless told otherwise.
pub const PACKAGE_NAME: &'static str = "duui-ner";

/// Version of the annotator.
pub const PACKAGE_VERSION: &'static str = "0.1.0";

/// Name under which the service presents itself.
pub const ANNOTATOR_NAME: &'static str = "duui-ner-ort";

/// What an annotator can do.
#[derive(Debug, PartialEq, Eq)]
pub struct TextImagerCapability {
    /// Languages that the annotator handles, as two-letter codes.
    pub supported_languages: Vec<String>,
    /// Whether the same input always gives the same result.
    pub reproducible: bool,
}

/// How an annotator describes itself.
#[derive(Debug, PartialEq, Eq)]
pub struct TextImagerDocumentation {
    pub annotator_name: String,
    pub version: String,
    /// Language the annotator is written in.
    pub implementation_lang: Option<String>,
    pub meta: Option<HashMap<String, String>>,
    pub docker_container_id: Option<String>,
    pub parameters: Option<HashMap<String, String>>,
    pub capability: TextImagerCapability,
    pub implementation_specific: Option<String>,
}

impl TextImagerDocumentation {
    /// Nothing is filled in but name, version, implementation language and
    /// the capability, and the capability names no language and is
    /// reproducible.
    pub open spec fn is_plain(self) -> bool {
        &&& self.meta is None
        &&& self.docker_container_id is None
        &&& self.parameters is None
        &&& self.implementation_specific is None
        &&& self.implementation_lang is Some
        &&& self.capability.reproducible
    }

    /// The description of a package: its name and version, `Rust` and the
    /// language version as implementation language, no supported language
    /// yet, reproducible, and nothing else.
    pub fn for_package(name: &str, version: &str, rust_version: &str) -> (documentation: Self)
        ensures
            documentation.annotator_name@ == name@,
            documentation.version@ == version@,
            documentation.implementation_lang matches Some(lang) && lang@ == "Rust "@
                + rust_version@,
            documentation.capability.supported_languages@.len() == 0,
            documentation.is_plain(),
    {
        TextImagerDocumentation {
            annotator_name: name.to_owned(),
            version: version.to_owned(),
            implementation_lang: Some("Rust ".to_owned().concat(rust_version)),
            meta: None,
            docker_container_id: None,
            parameters: None,
            capability: TextImagerCapability { supported_languages: Vec::new(), reproducible: true },
            implementation_specific: None,
        }
    }
}

impl Default for TextImagerDocumentation {
    /// The description of this package, written in `Rust` of no stated
    /// version.
    fn default() -> (documentation: Self)
        ensures
            documentation.annotator_name@ == PACKAGE_NAME@,
            documentation.version@ == PACKAGE_VERSION@,
            documentation.implementation_lang matches Some(lang) && lang@ == "Rust "@,
            documentation.capability.supported_languages@.len() == 0,
            documentation.is_plain(),
    {
        let documentation = TextImagerDocumentation::for_package(PACKAGE_NAME, PACKAGE_VERSION, "");
        proof {
            reveal_strlit("");
        }
        documentation
    }
}

} // verus!
