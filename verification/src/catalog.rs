//! Loading a script: the external runtime performs the load itself, so the
//! dashboard splits the operation in two. `load_begin` validates the request
//! and hands the host what the runtime needs; `apply_load_outcome` takes what
//! came back — together with the file's text, when it could be read — marks
//! the script, extracts its function names, and logs the outcome.

use vstd::prelude::*;
use crate::app::{App, AppV, spec_with_log};
use crate::extract::{extract_names, spec_extract};
use crate::model::{LogLevel, ScriptV};
use crate::text::{spec_digits, u64_to_string};

verus! {

/// What the external runtime needs to load one script.
#[derive(Debug, Clone)]
pub struct LoadRequest {
    /// Display name of the script, for messages.
    pub name: String,
    /// Path of the file.
    pub path: String,
    /// Runtime identifier the loader is keyed by.
    pub runtime: String,
    /// Language tag, for the extractor.
    pub language: String,
}

/// Mathematical view of a [`LoadRequest`].
#[verifier::ext_equal]
pub ghost struct LoadRequestV {
    pub name: Seq<char>,
    pub path: Seq<char>,
    pub runtime: Seq<char>,
    pub language: Seq<char>,
}

impl View for LoadRequest {
    type V = LoadRequestV;

    open spec fn view(&self) -> LoadRequestV {
        LoadRequestV {
            name: self.name@,
            path: self.path@,
            runtime: self.runtime@,
            language: self.language@,
        }
    }
}

impl App {
    /// Begin loading the script at `index`: validate the index, log the
    /// attempt, and hand back what the runtime needs. An out-of-range index
    /// is an error and changes nothing.
    pub fn load_begin(&mut self, index: usize) -> (r: Result<LoadRequest, String>)
        ensures
            index >= old(self)@.scripts.len() ==> {
                &&& r is Err
                &&& r->Err_0@ == "Invalid script index"@
                &&& final(self)@ == old(self)@
            },
            index < old(self)@.scripts.len() ==> {
                &&& r is Ok
                &&& r->Ok_0@.name == old(self)@.scripts[index as int].name
                &&& r->Ok_0@.path == old(self)@.scripts[index as int].path
                &&& r->Ok_0@.runtime == old(self)@.scripts[index as int].runtime
                &&& r->Ok_0@.language == old(self)@.scripts[index as int].language
                &&& spec_with_log(
                    old(self)@,
                    final(self)@,
                    LogLevel::Info,
                    "Loading "@ + old(self)@.scripts[index as int].name + "..."@,
                )
            },
    {
        if index >= self.scripts.len() {
            return Err("Invalid script index".to_owned());
        }
        let request = LoadRequest {
            name: self.scripts[index].name.clone(),
            path: self.scripts[index].path.clone(),
            runtime: self.scripts[index].runtime.clone(),
            language: self.scripts[index].language.clone(),
        };
        let mut msg = "Loading ".to_owned();
        msg.append(request.name.as_str());
        msg.append("...");
        self.add_log(LogLevel::Info, msg);
        Ok(request)
    }

    /// Record what the external runtime's load returned. On success the
    /// script is marked loaded; when the file's text could be read too, its
    /// function names are extracted and stored, and the count is logged. On
    /// failure the error text is stored on the script and logged, and the
    /// script stays unloaded.
    pub fn apply_load_outcome(&mut self, index: usize, outcome: Result<Option<String>, String>)
        -> (r: Result<(), String>)
        requires
            index < old(self)@.scripts.len(),
        ensures
            match outcome {
                Ok(Some(content)) => {
                    &&& r is Ok
                    &&& spec_with_log(
                        AppV {
                            scripts: old(self)@.scripts.update(
                                index as int,
                                ScriptV {
                                    loaded: true,
                                    error: None,
                                    functions: spec_extract(
                                        content@,
                                        old(self)@.scripts[index as int].language,
                                    ),
                                    ..old(self)@.scripts[index as int]
                                },
                            ),
                            ..old(self)@
                        },
                        final(self)@,
                        LogLevel::Success,
                        "Loaded "@ + old(self)@.scripts[index as int].name + " - found "@
                            + spec_digits(
                            spec_extract(
                                content@,
                                old(self)@.scripts[index as int].language,
                            ).len() as int,
                        ) + " functions"@,
                    )
                },
                Ok(None) => {
                    &&& r is Ok
                    &&& final(self)@ == (AppV {
                        scripts: old(self)@.scripts.update(
                            index as int,
                            ScriptV {
                                loaded: true,
                                error: None,
                                ..old(self)@.scripts[index as int]
                            },
                        ),
                        ..old(self)@
                    })
                },
                Err(e) => {
                    &&& r is Err
                    &&& r->Err_0@ == e@
                    &&& spec_with_log(
                        AppV {
                            scripts: old(self)@.scripts.update(
                                index as int,
                                ScriptV {
                                    error: Some(e@),
                                    ..old(self)@.scripts[index as int]
                                },
                            ),
                            ..old(self)@
                        },
                        final(self)@,
                        LogLevel::Error,
                        "Failed to load "@ + old(self)@.scripts[index as int].name + ": "@ + e@,
                    )
                },
            },
    {
        let ghost pre = self@;
        let name = self.scripts[index].name.clone();
        match outcome {
            Ok(content_opt) => {
                self.scripts[index].loaded = true;
                self.scripts[index].error = None;
                match content_opt {
                    Some(content) => {
                        let language = self.scripts[index].language.clone();
                        let functions = extract_names(content.as_str(), language.as_str());
                        let count = functions.len();
                        self.scripts[index].functions = functions;
                        proof {
                            assert(self.scripts@[index as int]@ =~= (ScriptV {
                                loaded: true,
                                error: None,
                                functions: spec_extract(
                                    content@,
                                    pre.scripts[index as int].language,
                                ),
                                ..pre.scripts[index as int]
                            }));
                            assert(self.scripts.deep_view() =~= pre.scripts.update(
                                index as int,
                                self.scripts@[index as int]@,
                            ));
                        }
                        let mut msg = "Loaded ".to_owned();
                        msg.append(name.as_str());
                        msg.append(" - found ");
                        let digits = u64_to_string(count as u64);
                        msg.append(digits.as_str());
                        msg.append(" functions");
                        self.add_log(LogLevel::Success, msg);
                        Ok(())
                    },
                    None => {
                        proof {
                            assert(self.scripts@[index as int]@ =~= (ScriptV {
                                loaded: true,
                                error: None,
                                ..pre.scripts[index as int]
                            }));
                            assert(self.scripts.deep_view() =~= pre.scripts.update(
                                index as int,
                                self.scripts@[index as int]@,
                            ));
                        }
                        Ok(())
                    },
                }
            },
            Err(e) => {
                self.scripts[index].error = Some(e.clone());
                proof {
                    assert(self.scripts@[index as int]@ =~= (ScriptV {
                        error: Some(e@),
                        ..pre.scripts[index as int]
                    }));
                    assert(self.scripts.deep_view() =~= pre.scripts.update(
                        index as int,
                        self.scripts@[index as int]@,
                    ));
                }
                let mut msg = "Failed to load ".to_owned();
                msg.append(name.as_str());
                msg.append(": ");
                msg.append(e.as_str());
                self.add_log(LogLevel::Error, msg);
                Err(e)
            },
        }
    }

    /// Extract the probable function names of `content` under `language`.
    pub fn extract_functions(&self, content: &str, language: &str) -> (r: Vec<String>)
        ensures
            r.deep_view() == spec_extract(content@, language@),
    {
        extract_names(content, language)
    }
}

} // verus!
