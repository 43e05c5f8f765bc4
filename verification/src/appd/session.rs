//! The applications running when the daemon stops, saved as a JSON list of
//! application ids and launched again when it next starts.
use vstd::prelude::*;

use crate::appd::config::session_file_path;
use crate::path::join_spec;
use crate::text::strs_view;

verus! {

/// What `serde_json::to_string` gives for a list of strings: the JSON text,
/// or `None` where it reports an error.
pub uninterp spec fn json_of_string_list(items: Seq<Seq<char>>) -> Option<Seq<char>>;

/// What `serde_json::from_str::<Vec<String>>` gives for a text: the list, or
/// `None` where it reports an error.
pub uninterp spec fn string_list_of_json(text: Seq<char>) -> Option<Seq<Seq<char>>>;

/// `serde_json::to_string` on a list of strings. Its result is named, as a
/// function of the list, by `json_of_string_list`. Claimed besides: it does
/// not fail, as its documentation says of a value whose `Serialize` never
/// fails and that holds no map (a list of strings).
#[verifier::external_body]
fn json_encode_string_list(items: &Vec<String>) -> (r: Option<String>)
    ensures
        match r {
            Some(t) => json_of_string_list(strs_view(items@)) == Some(t@),
            None => json_of_string_list(strs_view(items@)) is None,
        },
        r is Some,
{
    serde_json::to_string(items).ok()
}

/// `serde_json::from_str::<Vec<String>>`. Its result is named, as a function
/// of the text, by `string_list_of_json`. Claimed besides: the text that
/// `serde_json::to_string` writes for a list of strings reads back as that
/// list (each string written with JSON escapes, which the reader undoes).
#[verifier::external_body]
fn json_decode_string_list(text: &str) -> (r: Option<Vec<String>>)
    ensures
        match r {
            Some(v) => string_list_of_json(text@) == Some(strs_view(v@)),
            None => string_list_of_json(text@) is None,
        },
        r is None ==> !exists|items: Seq<Seq<char>>|
            #[trigger] json_of_string_list(items) == Some(text@),
        r matches Some(v) ==> forall|items: Seq<Seq<char>>|
            #[trigger] json_of_string_list(items) == Some(text@) ==> strs_view(v@) == items,
{
    serde_json::from_str::<Vec<String>>(text).ok()
}

/// The file that saving the session writes and what it writes there: the
/// JSON list of `app_ids` in `weft/last-session.json` under the runtime
/// directory. Nothing is saved without a runtime directory.
pub fn session_save_plan(runtime_dir: Option<&str>, app_ids: &Vec<String>) -> (r: Option<
    (String, String),
>)
    ensures
        match runtime_dir {
            Some(d) => r matches Some((p, t)) && p@ == join_spec(d@, "weft/last-session.json"@)
                && json_of_string_list(strs_view(app_ids@)) == Some(t@),
            None => r is None,
        },
{
    let path = match session_file_path(runtime_dir) {
        Some(p) => p,
        None => return None,
    };
    match json_encode_string_list(app_ids) {
        Some(json) => Some((path, json)),
        None => None,
    }
}

/// The applications a saved session lists; `None` when the text is not a
/// JSON list of strings.
pub fn parse_session(text: &str) -> (r: Option<Vec<String>>)
    ensures
        match r {
            Some(v) => string_list_of_json(text@) == Some(strs_view(v@)),
            None => string_list_of_json(text@) is None,
        },
        // What saving a session writes reads back as the same applications.
        forall|ids: Seq<Seq<char>>|
            #[trigger] json_of_string_list(ids) == Some(text@) ==> (r matches Some(v) && strs_view(
                v@,
            ) == ids),
{
    json_decode_string_list(text)
}

} // verus!
