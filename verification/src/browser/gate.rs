//! The entry page: telling whether it was passed, and passing it.
use crate::json::{
    bool_doc, entries, law_field, law_typed_field, number_doc, object_doc, string_doc, strings,
    strings_doc, Json, JsonV,
};
use crate::text::basic::{blank, is_blank, opt_str, texts};
use crate::text::charwise::{law_trim, only_spaces};
use crate::text::numeral::decimal;
use vstd::prelude::*;

verus! {

/// Whether a mark of the page behind the entry page is visible.
pub open spec fn marked(markers: JsonV) -> bool {
    markers.field_true("stat"@) || markers.field_true("work"@) || markers.field_true("go"@)
        || markers.field_true("left"@)
}

/// Whether a mark of the page behind the entry page is visible.
pub fn is_marked(markers: &Json) -> (r: bool)
    ensures
        r == marked(markers@),
{
    markers.get_true("stat") || markers.get_true("work") || markers.get_true("go")
        || markers.get_true("left")
}

/// Whether the entry page was passed: a mark of the page behind it is visible, or the entry page
/// is not.
pub fn is_entered(markers: &Json, gate_visible: bool) -> (r: bool)
    ensures
        r == (marked(markers@) || !gate_visible),
{
    is_marked(markers) || !gate_visible
}

/// What is to be done at the entry page.
#[derive(Debug, Clone, Copy, PartialEq, Eq, Structural)]
pub enum EntryStep {
    /// Fill in the CDK and enter.
    Enter,
    /// The entry page cannot be passed for want of a CDK.
    NoCdk,
    /// The page remembers an earlier visit.
    Remembered,
}

/// Decides what is to be done at the entry page.
pub fn entry_step(markers: &Json, gate_visible: bool, cdk: Option<&str>) -> (r: EntryStep)
    ensures
        r == (if marked(markers@) || !gate_visible {
            EntryStep::Remembered
        } else if opt_str(cdk) matches Some(c) && !blank(c) {
            EntryStep::Enter
        } else {
            EntryStep::NoCdk
        }),
{
    if is_entered(markers, gate_visible) {
        return EntryStep::Remembered;
    }
    match cdk {
        Some(c) => if is_blank(c) {
            EntryStep::NoCdk
        } else {
            EntryStep::Enter
        },
        None => EntryStep::NoCdk,
    }
}

/// What was seen of the page on one side of the entry page.
#[derive(Debug)]
pub struct GateSide {
    pub title: String,
    pub screenshot: String,
    pub html_file: String,
    pub html_bytes: usize,
    pub fields: Json,
    pub markers: Json,
}

/// What is reported of one side of the entry page.
pub open spec fn side_doc(s: GateSide) -> JsonV {
    JsonV::Obj(
        seq![
            ("fields"@, s.fields@),
            ("htmlBytes"@, JsonV::Num(decimal(s.html_bytes as nat))),
            ("htmlFile"@, JsonV::Str(s.html_file@)),
            ("markers"@, s.markers@),
            ("screenshot"@, JsonV::Str(s.screenshot@)),
            ("title"@, JsonV::Str(s.title@)),
        ],
    )
}

fn side_json(s: &GateSide) -> (r: Json)
    ensures
        r@ == side_doc(*s),
{
    let mut o: Vec<(String, Json)> = Vec::new();
    o.push(("fields".to_owned(), s.fields.copy()));
    o.push(("htmlBytes".to_owned(), number_doc(s.html_bytes as u64)));
    o.push(("htmlFile".to_owned(), string_doc(s.html_file.as_str())));
    o.push(("markers".to_owned(), s.markers.copy()));
    o.push(("screenshot".to_owned(), string_doc(s.screenshot.as_str())));
    o.push(("title".to_owned(), string_doc(s.title.as_str())));
    assert(entries(o@) =~= side_doc(*s)->Obj_0);
    object_doc(o)
}

/// What the visit of the entry page found out.
pub open spec fn detection_doc(
    before: GateSide,
    after: GateSide,
    gate_before: bool,
    gate_after: bool,
    entered: bool,
) -> JsonV {
    JsonV::Obj(
        seq![
            ("enteredWithCdk"@, JsonV::Bool(entered)),
            ("postEntry"@, JsonV::Bool(marked(after.markers@) || !gate_after)),
            ("preEntry"@, JsonV::Bool(gate_before && !marked(before.markers@))),
        ],
    )
}

/// What is reported of a visit of the entry page: what was seen before and after, whether the
/// page was closed at first and passed in the end, and whether a CDK was filled in.
pub fn gate_report(
    url: &str,
    before: &GateSide,
    after: &GateSide,
    gate_before: bool,
    gate_after: bool,
    entered: bool,
    errors: &Vec<String>,
) -> (r: Json)
    ensures
        r@ == JsonV::Obj(
            seq![
                (
                    "detection"@,
                    detection_doc(*before, *after, gate_before, gate_after, entered),
                ),
                ("errors"@, strings(texts(errors@))),
                ("ok"@, JsonV::Bool(true)),
                ("post"@, side_doc(*after)),
                ("pre"@, side_doc(*before)),
                ("url"@, JsonV::Str(url@)),
            ],
        ),
{
    let mut d: Vec<(String, Json)> = Vec::new();
    d.push(("enteredWithCdk".to_owned(), bool_doc(entered)));
    d.push(("postEntry".to_owned(), bool_doc(is_entered(&after.markers, gate_after))));
    d.push(("preEntry".to_owned(), bool_doc(gate_before && !is_marked(&before.markers))));
    assert(entries(d@) =~= detection_doc(*before, *after, gate_before, gate_after, entered)->Obj_0);
    let mut o: Vec<(String, Json)> = Vec::new();
    o.push(("detection".to_owned(), object_doc(d)));
    o.push(("errors".to_owned(), strings_doc(errors)));
    o.push(("ok".to_owned(), bool_doc(true)));
    o.push(("post".to_owned(), side_json(after)));
    o.push(("pre".to_owned(), side_json(before)));
    o.push(("url".to_owned(), string_doc(url)));
    assert(entries(o@) =~= seq![
        ("detection"@, detection_doc(*before, *after, gate_before, gate_after, entered)),
        ("errors"@, strings(texts(errors@))),
        ("ok"@, JsonV::Bool(true)),
        ("post"@, side_doc(*after)),
        ("pre"@, side_doc(*before)),
        ("url"@, JsonV::Str(url@)),
    ]);
    object_doc(o)
}

/// What is reported of an opened page.
pub fn open_report(
    url: &str,
    title: &str,
    screenshot: &str,
    html_bytes: usize,
    fields: &Json,
    errors: &Vec<String>,
) -> (r: Json)
    ensures
        r@ == JsonV::Obj(
            seq![
                ("errors"@, strings(texts(errors@))),
                ("formFields"@, fields@),
                ("htmlBytes"@, JsonV::Num(decimal(html_bytes as nat))),
                ("ok"@, JsonV::Bool(true)),
                ("screenshot"@, JsonV::Str(screenshot@)),
                ("title"@, JsonV::Str(title@)),
                ("url"@, JsonV::Str(url@)),
            ],
        ),
{
    let mut o: Vec<(String, Json)> = Vec::new();
    o.push(("errors".to_owned(), strings_doc(errors)));
    o.push(("formFields".to_owned(), fields.copy()));
    o.push(("htmlBytes".to_owned(), number_doc(html_bytes as u64)));
    o.push(("ok".to_owned(), bool_doc(true)));
    o.push(("screenshot".to_owned(), string_doc(screenshot)));
    o.push(("title".to_owned(), string_doc(title)));
    o.push(("url".to_owned(), string_doc(url)));
    assert(entries(o@) =~= seq![
        ("errors"@, strings(texts(errors@))),
        ("formFields"@, fields@),
        ("htmlBytes"@, JsonV::Num(decimal(html_bytes as nat))),
        ("ok"@, JsonV::Bool(true)),
        ("screenshot"@, JsonV::Str(screenshot@)),
        ("title"@, JsonV::Str(title@)),
        ("url"@, JsonV::Str(url@)),
    ]);
    object_doc(o)
}

/// The entry page was passed where one of four marks of the page behind it is there.
pub proof fn law_marks(markers: JsonV)
    ensures
        marked(markers) == (exists|k: Seq<char>|
            (k == "stat"@ || k == "work"@ || k == "go"@ || k == "left"@) && #[trigger] markers.get(
                k,
            ) == Some(JsonV::Bool(true))),
{
    law_typed_field(markers, "stat"@);
    law_typed_field(markers, "work"@);
    law_typed_field(markers, "go"@);
    law_typed_field(markers, "left"@);
    if marked(markers) {
        let k = if markers.field_true("stat"@) {
            "stat"@
        } else if markers.field_true("work"@) {
            "work"@
        } else if markers.field_true("go"@) {
            "go"@
        } else {
            "left"@
        };
        assert(markers.get(k) == Some(JsonV::Bool(true)));
    }
}

/// What a visit is reported to have found: that the page was closed before, and passed after, each
/// by what was seen then.
pub proof fn law_detection(
    before: GateSide,
    after: GateSide,
    gate_before: bool,
    gate_after: bool,
    entered: bool,
)
    ensures
        ({
            let d = detection_doc(before, after, gate_before, gate_after, entered);
            &&& d.get("enteredWithCdk"@) == Some(JsonV::Bool(entered))
            &&& d.get("postEntry"@) == Some(JsonV::Bool(marked(after.markers@) || !gate_after))
            &&& d.get("preEntry"@) == Some(JsonV::Bool(gate_before && !marked(before.markers@)))
        }),
{
    let d = detection_doc(before, after, gate_before, gate_after, entered);
    reveal_strlit("enteredWithCdk");
    reveal_strlit("postEntry");
    reveal_strlit("preEntry");
    assert("enteredWithCdk"@.len() == 14 && "postEntry"@.len() == 9 && "preEntry"@.len() == 8);
    law_field(d, "enteredWithCdk"@);
    law_field(d, "postEntry"@);
    law_field(d, "preEntry"@);
    assert(d->Obj_0[0].0 == "enteredWithCdk"@);
    assert(d->Obj_0[1].0 == "postEntry"@);
    assert(d->Obj_0[2].0 == "preEntry"@);
}

// ---------------------------------------------------------------------------
// Laws on what a call gives
// ---------------------------------------------------------------------------

/// The entry page is passed with a CDK only where it is there: not where the page remembers an
/// earlier visit, and not without a CDK.
pub proof fn law_entry(markers: &Json, visible: bool, cdk: Option<&str>, r: EntryStep)
    requires
        call_ensures(entry_step, (markers, visible, cdk), r),
    ensures
        r is Remembered <==> marked(markers@) || !visible,
        r is Enter <==> !marked(markers@) && visible && (cdk matches Some(c) && !only_spaces(c@)),
        r is NoCdk <==> !marked(markers@) && visible && (cdk matches Some(c) ==> only_spaces(c@)),
{
    if let Some(c) = cdk {
        law_trim(c@);
    }
}

/// The entry page is passed where a part of what is behind it is visible, or it is itself gone.
pub proof fn law_passed(markers: &Json, visible: bool, r: bool)
    requires
        call_ensures(is_entered, (markers, visible), r),
    ensures
        r == (!visible || exists|k: Seq<char>|
            (k == "stat"@ || k == "work"@ || k == "go"@ || k == "left"@) && #[trigger] markers@.get(
                k,
            ) == Some(JsonV::Bool(true))),
{
    law_marks(markers@);
}

/// The report on the entry page holds what was seen before it and after it, each in its place.
pub proof fn law_entry_report(
    url: &str,
    before: &GateSide,
    after: &GateSide,
    gate_before: bool,
    gate_after: bool,
    entered: bool,
    errors: &Vec<String>,
    r: Json,
)
    requires
        call_ensures(
            gate_report,
            (url, before, after, gate_before, gate_after, entered, errors),
            r,
        ),
    ensures
        r@ matches JsonV::Obj(o) && o.len() == 6 && o[0] == ("detection"@, detection_doc(
            *before,
            *after,
            gate_before,
            gate_after,
            entered,
        )) && o[3].0 == "post"@ && (o[3].1 matches JsonV::Obj(p) && p.len() == 6 && p[0].1
            == after.fields@ && p[3].1 == after.markers@ && p[5].1 == JsonV::Str(after.title@))
            && o[4].0 == "pre"@ && (o[4].1 matches JsonV::Obj(p) && p.len() == 6 && p[0].1
            == before.fields@ && p[3].1 == before.markers@ && p[5].1 == JsonV::Str(before.title@))
            && o[5] == ("url"@, JsonV::Str(url@)),
{
}

} // verus!
