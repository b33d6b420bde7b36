//! The decisions of the MCP server's tools; the server itself runs them and does the I/O.
use vstd::prelude::*;
use crate::models::BrewPackage;
use crate::sync::{sync_analysis, unwanted_by};
use crate::text::{is_blank, trim, trim_str};

verus! {

/// What `serde_json::from_str::<Vec<String>>` gives for `text`: the strings of a JSON array,
/// or the text of the parse error.
pub uninterp spec fn json_string_array(text: Seq<char>) -> Result<Seq<Seq<char>>, Seq<char>>;

/// Trusted: `serde_json::from_str::<Vec<String>>`, the error shown with `to_string`. The
/// result is the name above, with the strings taken by their views.
#[verifier::external_body]
fn parse_json_string_array(text: &str) -> (r: Result<Vec<String>, String>)
    ensures
        match r {
            Ok(v) => json_string_array(text@) == Ok::<Seq<Seq<char>>, Seq<char>>(
                v@.map_values(|s: String| s@),
            ),
            Err(e) => json_string_array(text@) == Err::<Seq<Seq<char>>, Seq<char>>(e@),
        },
{
    match serde_json::from_str::<Vec<String>>(text) {
        Ok(v) => Ok(v),
        Err(e) => Err(e.to_string()),
    }
}

/// A tool argument that must be a JSON array of strings: the strings, or `prefix` followed by
/// the parse error. The argument is trimmed first.
pub open spec fn string_list_argument(text: Seq<char>, prefix: Seq<char>) -> Result<Seq<Seq<char>>, Seq<char>> {
    match json_string_array(trim(text)) {
        Ok(v) => Ok(v),
        Err(e) => Err(prefix + e),
    }
}

/// Reads a JSON array of strings from a trimmed tool argument; errors start with `prefix`.
fn parse_string_list(text: &str, prefix: &str) -> (r: Result<Vec<String>, String>)
    ensures
        match r {
            Ok(v) => string_list_argument(text@, prefix@) == Ok::<Seq<Seq<char>>, Seq<char>>(
                v@.map_values(|s: String| s@),
            ),
            Err(e) => string_list_argument(text@, prefix@) == Err::<Seq<Seq<char>>, Seq<char>>(e@),
        },
{
    let t = trim_str(text);
    match parse_json_string_array(t.as_str()) {
        Ok(v) => Ok(v),
        Err(e) => Err(String::from_str(prefix).concat(e.as_str())),
    }
}

/// The recipe URLs or paths of a tool argument (a JSON array of strings).
pub fn parse_urls_json(urls_json: &str) -> (r: Result<Vec<String>, String>)
    ensures
        match r {
            Ok(v) => string_list_argument(urls_json@, "Invalid JSON array of URLs: "@) == Ok::<
                Seq<Seq<char>>,
                Seq<char>,
            >(v@.map_values(|s: String| s@)),
            Err(e) => string_list_argument(urls_json@, "Invalid JSON array of URLs: "@) == Err::<
                Seq<Seq<char>>,
                Seq<char>,
            >(e@),
        },
{
    parse_string_list(urls_json, "Invalid JSON array of URLs: ")
}

/// Packages known only by name (no category, URL, cask flag or version), in order.
pub fn packages_from_names(names: Vec<String>) -> (r: Vec<BrewPackage>)
    ensures
        r.len() == names.len(),
        forall|i: int|
            0 <= i < names.len() ==> (#[trigger] r@[i]).name == names@[i] && r@[i].category is None
                && r@[i].url is None && r@[i].cask is None && r@[i].version is None,
{
    let mut out: Vec<BrewPackage> = Vec::new();
    let mut i: usize = 0;
    while i < names.len()
        invariant
            i <= names.len(),
            out.len() == i,
            forall|k: int|
                0 <= k < i ==> (#[trigger] out@[k]).name == names@[k] && out@[k].category is None
                    && out@[k].url is None && out@[k].cask is None && out@[k].version is None,
        decreases names.len() - i,
    {
        out.push(
            BrewPackage {
                name: names[i].clone(),
                category: None,
                url: None,
                cask: None,
                version: None,
            },
        );
        i = i + 1;
    }
    out
}

/// The MCP server of brim: its tools' decisions.
pub struct BrimMcpServer;

impl BrimMcpServer {
    /// First step of the `update_recipe_lock` tool: the recipe URLs to fetch and accept, or
    /// the complaint about the argument.
    pub fn update_recipe_lock(&self, urls_json: &str) -> (r: Result<Vec<String>, String>)
        ensures
            match r {
                Ok(v) => string_list_argument(urls_json@, "Invalid JSON array of URLs: "@) == Ok::<
                    Seq<Seq<char>>,
                    Seq<char>,
                >(v@.map_values(|s: String| s@)),
                Err(e) => string_list_argument(urls_json@, "Invalid JSON array of URLs: "@) == Err::<
                    Seq<Seq<char>>,
                    Seq<char>,
                >(e@),
            },
    {
        parse_urls_json(urls_json)
    }

    /// Last step of the `update_recipe_lock` tool, given how fetching the recipe and writing
    /// its lockfile went (`Ok` with the number of packages, or the error's text).
    pub fn update_recipe_lock_reply(&self, accepted: Result<usize, String>) -> (r: Result<String, String>)
        ensures
            match accepted {
                Ok(_) => r matches Ok(m) && m@ == "Recipe lock updated. You can retry the previous operation."@,
                Err(e) => r == Err::<String, String>(e),
            },
    {
        match accepted {
            Ok(_) => Ok(String::from_str("Recipe lock updated. You can retry the previous operation.")),
            Err(e) => Err(e),
        }
    }

    /// The `validate_recipe` tool's answer, given the validation's outcome (the error's text).
    pub fn validate_recipe_reply(&self, outcome: Result<(), String>) -> (r: Result<String, String>)
        ensures
            match outcome {
                Ok(()) => r matches Ok(m) && m@ == "Validation passed."@,
                Err(e) => r == Err::<String, String>(e),
            },
    {
        match outcome {
            Ok(()) => Ok(String::from_str("Validation passed.")),
            Err(e) => Err(e),
        }
    }

    /// What a recipe tool answers when the lock check fails: the error's text and how to go on.
    pub fn lock_failure_message(&self, error: &str) -> (r: String)
        ensures
            r@ == error@ + " Use update_recipe_lock to accept the new recipe and retry."@,
    {
        String::from_str(error).concat(" Use update_recipe_lock to accept the new recipe and retry.")
    }

    /// The packages the `remove` tool removes: one per name of the JSON array, or the
    /// complaint about the argument.
    pub fn remove_request(&self, names_json: &str) -> (r: Result<Vec<BrewPackage>, String>)
        ensures
            match r {
                Ok(v) => string_list_argument(names_json@, "Invalid JSON array of names: "@) matches Ok(
                    names,
                ) && v.len() == names.len() && forall|i: int|
                    0 <= i < v.len() ==> (#[trigger] v@[i]).name@ == names[i] && v@[i].category is None
                        && v@[i].url is None && v@[i].cask is None && v@[i].version is None,
                Err(e) => string_list_argument(names_json@, "Invalid JSON array of names: "@) == Err::<
                    Seq<Seq<char>>,
                    Seq<char>,
                >(e@),
            },
    {
        match parse_string_list(names_json, "Invalid JSON array of names: ") {
            Ok(names) => {
                let ghost nv = names@.map_values(|s: String| s@);
                let v = packages_from_names(names);
                assert forall|i: int| 0 <= i < v.len() implies (#[trigger] v@[i]).name@ == nv[i] by {}
                Ok(v)
            },
            Err(e) => Err(e),
        }
    }

    /// The packages the `trim` tool removes: those installed that no recipe package asks for,
    /// in the order brew lists them.
    pub fn trim_targets(&self, recipe: &Vec<BrewPackage>, installed: &Vec<BrewPackage>) -> (r: Vec<BrewPackage>)
        ensures
            r@ == installed@.filter(unwanted_by(recipe@)),
    {
        sync_analysis(recipe, installed).to_remove
    }

    /// Where the `install` tool posts its summary: the trimmed webhook URL, unless it is blank.
    pub fn webhook_target(&self, webhook_url: &str) -> (r: Option<String>)
        ensures
            trim(webhook_url@).len() == 0 ==> r is None,
            trim(webhook_url@).len() > 0 ==> (r matches Some(u) && u@ == trim(webhook_url@)),
    {
        if is_blank(webhook_url) {
            None
        } else {
            Some(trim_str(webhook_url))
        }
    }

    /// The `install` tool's answer: the results as JSON, with a note when posting the webhook
    /// failed (`webhook` is the post's outcome, if there was one).
    pub fn install_reply(&self, response_json: String, webhook: Option<Result<(), String>>) -> (r: Result<String, String>)
        ensures
            match webhook {
                Some(Err(e)) => r matches Ok(m) && m@ == response_json@ + "\nWebhook notification failed: "@ + e@,
                _ => r == Ok::<String, String>(response_json),
            },
    {
        match webhook {
            Some(Err(e)) => Ok(response_json.concat("\nWebhook notification failed: ").concat(e.as_str())),
            _ => Ok(response_json),
        }
    }
}

} // verus!
