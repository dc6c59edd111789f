//! The recipe document: inputs to ask for, steps to run, and the defaults and
//! platform rules that apply to them.
use vstd::prelude::*;
use crate::text::{eq_ignore_ascii_case, eq_ignore_case, owned};

verus! {

/// The kind of answer an input asks for.
#[derive(Debug, Clone, Copy, PartialEq, Eq, Structural)]
pub enum InputType {
    Text,
    Number,
    Password,
    Confirm,
    Select,
}

/// What the prompts read of an input's `default` value: the value as a plain
/// string, as a signed integer and as a boolean, each where it is one.
#[derive(Debug, Clone)]
pub struct DefaultValue {
    pub text: Option<String>,
    pub integer: Option<i64>,
    pub boolean: Option<bool>,
}

/// One question of a recipe's form.
#[derive(Debug, Clone)]
pub struct InputSpec {
    pub id: String,
    pub input_type: InputType,
    pub prompt: String,
    pub default: Option<DefaultValue>,
    pub options: Option<Vec<String>>,
    pub required: Option<bool>,
    pub help: Option<String>,
}

/// One shell step of a recipe.
#[derive(Debug, Clone)]
pub struct StepSpec {
    pub name: String,
    pub command: String,
    pub working_dir: Option<String>,
    pub env: Option<Vec<(String, String)>>,
    pub allow_failure: Option<bool>,
    pub show_output: Option<bool>,
    pub platforms: Option<Vec<String>>,
}

/// A deployment recipe.
#[derive(Debug, Clone)]
pub struct Recipe {
    pub name: String,
    pub version: String,
    pub description: String,
    pub category: String,
    pub author: Option<String>,
    pub platforms: Option<Vec<String>>,
    pub inputs: Vec<InputSpec>,
    pub steps: Vec<StepSpec>,
}

/// `allow_failure` of a step that does not set it.
pub fn default_allow_failure() -> (r: Option<bool>)
    ensures
        r == Some(false),
{
    Some(false)
}

/// `show_output` of a step that does not set it.
pub fn default_show_output() -> (r: Option<bool>)
    ensures
        r == Some(true),
{
    Some(true)
}

/// `version` of a recipe that does not set it.
pub fn default_version() -> (r: String)
    ensures
        r@ == "1.0.0"@,
{
    owned("1.0.0")
}

/// `category` of a recipe that does not set it.
pub fn default_category() -> (r: String)
    ensures
        r@ == "service"@,
{
    owned("service")
}

/// A platform list admits `os`: no list, an empty list, or an entry equal to
/// `os` up to ASCII case.
pub open spec fn platform_admits(platforms: Option<Vec<String>>, os: Seq<char>) -> bool {
    match platforms {
        None => true,
        Some(list) => list.len() == 0 || exists|i: int|
            0 <= i < list.len() && eq_ignore_case(#[trigger] list@[i]@, os),
    }
}

/// The platform name of a target OS (`std::env::consts::OS`): `"macos"` is
/// called `"darwin"` in recipes, every other name is kept.
pub open spec fn os_platform_name(target_os: Seq<char>) -> Seq<char> {
    if target_os == "macos"@ {
        "darwin"@
    } else {
        target_os
    }
}

impl Recipe {
    /// Whether a `platforms` list (of a recipe or of a step) admits the
    /// platform `os`.
    pub fn supports_platform(platforms: &Option<Vec<String>>, os: &str) -> (r: bool)
        ensures
            r == platform_admits(*platforms, os@),
    {
        match platforms {
            None => true,
            Some(list) => {
                if list.len() == 0 {
                    return true;
                }
                let mut i: usize = 0;
                while i < list.len()
                    invariant
                        *platforms == Some(*list),
                        i <= list.len(),
                        forall|j: int| 0 <= j < i ==> !eq_ignore_case(#[trigger] list@[j]@, os@),
                    decreases list.len() - i,
                {
                    if eq_ignore_ascii_case(list[i].as_str(), os) {
                        assert(eq_ignore_case(list@[i as int]@, os@));
                        return true;
                    }
                    i = i + 1;
                }
                false
            },
        }
    }

    /// The platform name of the running system, given the target OS name.
    pub fn current_os(target_os: &str) -> (r: String)
        ensures
            r@ == os_platform_name(target_os@),
    {
        let macos = owned("macos");
        let t = owned(target_os);
        let same = t.eq(&macos);
        assert(same == (t@ == macos@));
        if same {
            owned("darwin")
        } else {
            t
        }
    }
}

} // verus!
