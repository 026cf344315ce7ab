use vstd::prelude::*;
use crate::error::{AppError, AppResult, ErrorKind};
use crate::fields::required_text;
use crate::projects::strings_view;
use crate::text::trim;

verus! {

/// What `serde_json::from_str::<Vec<String>>` returns for `text`: the list of strings
/// it encodes, or `None` when it is not a JSON array of strings.
pub uninterp spec fn json_string_list(text: Seq<char>) -> Option<Seq<Seq<char>>>;

/// What `serde_json::to_string` writes for a list of strings.
pub uninterp spec fn json_of_strings(items: Seq<Seq<char>>) -> Seq<char>;

/// `serde_json::from_str::<Vec<String>>`, `None` on a parse error; the contract names
/// its result.
#[verifier::external_body]
fn json_decode_strings(text: &str) -> (r: Option<Vec<String>>)
    ensures
        match r {
            Some(v) => json_string_list(text@) == Some(strings_view(v@)),
            None => json_string_list(text@) is None,
        },
{
    serde_json::from_str::<Vec<String>>(text).ok()
}

/// `serde_json::to_string` of a list of strings, with the error's text on failure. The
/// contract names the text written, says that it reads back as the same list, and
/// that it does not fail: a `Vec<String>` holds no map and its `Serialize` never fails,
/// the two causes of failure that serde_json documents.
#[verifier::external_body]
fn json_encode_strings(items: &Vec<String>) -> (r: Result<String, String>)
    ensures
        r is Ok,
        r matches Ok(s) ==> s@ == json_of_strings(strings_view(items@))
            && json_string_list(s@) == Some(strings_view(items@)),
{
    serde_json::to_string(items).map_err(|e| e.to_string())
}

/// The item texts a template holds: the JSON list of strings, or none when the stored
/// text is not one.
pub open spec fn template_items_spec(json: Seq<char>) -> Seq<Seq<char>> {
    match json_string_list(json) {
        Some(v) => v,
        None => seq![],
    }
}

/// The item texts of a stored template (an unreadable list counts as empty).
pub fn parse_items(json: &str) -> (r: Vec<String>)
    ensures
        strings_view(r@) == template_items_spec(json@),
{
    match json_decode_strings(json) {
        Some(v) => v,
        None => Vec::new(),
    }
}

/// The text stored for a template made from a checklist's item texts; reading it back
/// with `parse_items` gives the same texts in the same order.
pub fn template_items_json(texts: &Vec<String>) -> (r: AppResult<String>)
    ensures
        r matches Ok(s) && s@ == json_of_strings(strings_view(texts@))
            && template_items_spec(s@) == strings_view(texts@),
{
    match json_encode_strings(texts) {
        Ok(s) => Ok(s),
        Err(e) => Err(AppError::with_message(ErrorKind::Internal, crate::text::concat2("JSON: ", e.as_str()))),
    }
}

/// An item of a checklist made from a template.
#[derive(Debug)]
pub struct ItemSeed {
    pub text: String,
    pub is_done: bool,
    pub sort_order: i64,
}

/// The items of a checklist made from a template: the texts in order, none ticked,
/// numbered from 0.
pub fn applied_items(texts: Vec<String>) -> (r: Vec<ItemSeed>)
    requires
        texts@.len() <= i64::MAX,
    ensures
        r@.len() == texts@.len(),
        forall|i: int| 0 <= i < r@.len() ==> (#[trigger] r@[i]).text@ == texts@[i]@ && !r@[i].is_done
            && r@[i].sort_order == i,
{
    let n = texts.len();
    let mut r: Vec<ItemSeed> = Vec::new();
    let mut i: usize = 0;
    while i < n
        invariant
            n == texts@.len(),
            n <= i64::MAX,
            i <= n,
            r@.len() == i,
            forall|k: int| 0 <= k < i ==> (#[trigger] r@[k]).text@ == texts@[k]@ && !r@[k].is_done
                && r@[k].sort_order == k,
        decreases n - i,
    {
        r.push(ItemSeed { text: texts[i].clone(), is_done: false, sort_order: i as i64 });
        i = i + 1;
    }
    r
}

/// A checklist needs a title (stored trimmed).
pub fn checklist_title(raw: &str) -> (r: AppResult<String>)
    ensures
        trim(raw@).len() == 0 ==> (r matches Err(e) && e.kind == ErrorKind::Validation
            && e.message@ == "Название чеклиста пусто"@),
        trim(raw@).len() > 0 ==> (r matches Ok(s) && s@ == trim(raw@)),
{
    required_text(raw, "Название чеклиста пусто")
}

/// A checklist item needs a text (stored trimmed).
pub fn checklist_item_text(raw: &str) -> (r: AppResult<String>)
    ensures
        trim(raw@).len() == 0 ==> (r matches Err(e) && e.kind == ErrorKind::Validation
            && e.message@ == "Пункт пуст"@),
        trim(raw@).len() > 0 ==> (r matches Ok(s) && s@ == trim(raw@)),
{
    required_text(raw, "Пункт пуст")
}

/// A template needs a name (stored trimmed).
pub fn template_name(raw: &str) -> (r: AppResult<String>)
    ensures
        trim(raw@).len() == 0 ==> (r matches Err(e) && e.kind == ErrorKind::Validation
            && e.message@ == "Имя шаблона пусто"@),
        trim(raw@).len() > 0 ==> (r matches Ok(s) && s@ == trim(raw@)),
{
    required_text(raw, "Имя шаблона пусто")
}

} // verus!
