//! Where a browser is looked for, and in which mode it runs.
use crate::json::{bool_doc, entries, null_doc, string_doc, Json, JsonV};
use crate::text::basic::{
    join, joined, lowercase, opt_str, same, text2, text3, text5, texts, trim, trimmed,
};
use crate::text::charwise::{
    is_core, is_space, law_last_word, law_split, law_trim, law_words, only_spaces,
};
use crate::text::split::{split, split_at_char, split_words, words};
use vstd::prelude::*;

verus! {

/// How a browser runs.
#[derive(Debug, Clone, Copy, PartialEq, Eq, Structural)]
pub enum BrowserMode {
    /// Without a window, for speed.
    Headless,
    /// Without a window, at a human pace.
    Stealth,
    /// With a window, in which a user can step in.
    StealthHeaded,
}

impl BrowserMode {
    /// Whether there is a window.
    pub fn headed(self) -> (r: bool)
        ensures
            r == (self == BrowserMode::StealthHeaded),
    {
        matches!(self, BrowserMode::StealthHeaded)
    }

    /// Whether the browser runs at a human pace.
    pub fn stealth(self) -> (r: bool)
        ensures
            r == (self != BrowserMode::Headless),
    {
        matches!(self, BrowserMode::Stealth | BrowserMode::StealthHeaded)
    }

    /// Whether the site is visited before the page that counts.
    pub fn organic(self) -> (r: bool)
        ensures
            r == (self != BrowserMode::Headless),
    {
        matches!(self, BrowserMode::Stealth | BrowserMode::StealthHeaded)
    }

    /// What the mode is called.
    pub open spec fn name(self) -> Seq<char> {
        match self {
            BrowserMode::Headless => "无头"@,
            BrowserMode::Stealth => "有机隐身（无头）"@,
            BrowserMode::StealthHeaded => "有机隐身（有头）"@,
        }
    }

    /// The line that announces the browser.
    pub fn starting(self) -> (r: String)
        ensures
            r@ == "启动浏览器（模式："@ + self.name() + "）"@,
    {
        let name = match self {
            BrowserMode::Headless => "无头",
            BrowserMode::Stealth => "有机隐身（无头）",
            BrowserMode::StealthHeaded => "有机隐身（有头）",
        };
        text3("启动浏览器（模式：", name, "）")
    }
}

// ---------------------------------------------------------------------------
// Candidates
// ---------------------------------------------------------------------------

/// A program that was found, by its name.
#[derive(Debug, Clone)]
pub struct Found {
    pub name: String,
    pub path: String,
}

/// The path of the program `name`, among those that were found: one path, or none.
pub open spec fn path_of(found: Seq<Found>, name: Seq<char>) -> Seq<Seq<char>>
    decreases found.len(),
{
    if found.len() == 0 {
        Seq::empty()
    } else if found[0].name@ == name {
        seq![found[0].path@]
    } else {
        path_of(found.drop_first(), name)
    }
}

/// Where Google Chrome may be.
pub open spec fn chrome_paths(found: Seq<Found>) -> Seq<Seq<char>> {
    path_of(found, "google-chrome"@) + path_of(found, "google-chrome-stable"@) + seq![
        "/Applications/Google Chrome.app/Contents/MacOS/Google Chrome"@,
        "/usr/bin/google-chrome"@,
    ]
}

/// Where Chromium may be.
pub open spec fn chromium_paths(found: Seq<Found>) -> Seq<Seq<char>> {
    path_of(found, "chromium"@) + path_of(found, "chromium-browser"@) + seq![
        "/usr/bin/chromium"@,
        "/usr/bin/chromium-browser"@,
        "/snap/bin/chromium"@,
        "/Applications/Chromium.app/Contents/MacOS/Chromium"@,
    ]
}

/// Where Microsoft Edge may be.
pub open spec fn edge_paths(found: Seq<Found>) -> Seq<Seq<char>> {
    path_of(found, "microsoft-edge"@) + seq![
        "/Applications/Microsoft Edge.app/Contents/MacOS/Microsoft Edge"@,
    ]
}

/// Where the browser of an engine may be, by the name of the engine in lower case; without a name
/// it is Chromium, or else Chrome, or else Edge.
pub open spec fn engine_paths(e: Seq<char>, found: Seq<Found>) -> Seq<Seq<char>> {
    if e == "chrome"@ {
        chrome_paths(found)
    } else if e.len() == 0 {
        chromium_paths(found) + chrome_paths(found) + edge_paths(found)
    } else if e == "chromium"@ {
        chromium_paths(found) + chrome_paths(found)
    } else if e == "msedge"@ || e == "edge"@ {
        edge_paths(found)
    } else {
        path_of(found, e) + chromium_paths(found) + chrome_paths(found)
    }
}

/// The path that the environment names, where it is not blank.
pub open spec fn named_path(named: Option<Seq<char>>) -> Seq<Seq<char>> {
    match named {
        Some(p) => if trim(p).len() == 0 {
            Seq::empty()
        } else {
            seq![trim(p)]
        },
        None => Seq::empty(),
    }
}

/// Where a browser may be, the best place first: the one that the environment names, and then
/// those of the wanted engine.
pub open spec fn candidates(
    engine: Option<Seq<char>>,
    named: Option<Seq<char>>,
    found: Seq<Found>,
) -> Seq<Seq<char>> {
    named_path(named) + match engine {
        Some(e) => engine_paths(lowercase(e), found),
        None => engine_paths(Seq::empty(), found),
    }
}

fn push_found(v: &mut Vec<String>, found: &Vec<Found>, name: &str)
    ensures
        texts(final(v)@) == texts(old(v)@) + path_of(found@, name@),
{
    let ghost start = texts(v@);
    let mut i: usize = 0;
    assert(found@.skip(0) == found@);
    while i < found.len()
        invariant
            i <= found@.len(),
            start == texts(old(v)@),
            texts(v@) == start,
            path_of(found@, name@) == path_of(found@.skip(i as int), name@),
        decreases found@.len() - i,
    {
        assert(found@.skip(i as int).drop_first() == found@.skip(i + 1));
        if same(found[i].name.as_str(), name) {
            v.push(found[i].path.clone());
            assert(texts(v@) =~= start + seq![found@[i as int].path@]);
            return ;
        }
        i += 1;
    }
    assert(start + Seq::<Seq<char>>::empty() =~= start);
}

fn push_text(v: &mut Vec<String>, s: &str)
    ensures
        texts(final(v)@) == texts(old(v)@).push(s@),
{
    let ghost was = texts(v@);
    v.push(s.to_owned());
    assert(texts(v@) =~= was.push(s@));
}

fn push_chrome(v: &mut Vec<String>, found: &Vec<Found>)
    ensures
        texts(final(v)@) == texts(old(v)@) + chrome_paths(found@),
{
    let ghost start = texts(v@);
    push_found(v, found, "google-chrome");
    push_found(v, found, "google-chrome-stable");
    push_text(v, "/Applications/Google Chrome.app/Contents/MacOS/Google Chrome");
    push_text(v, "/usr/bin/google-chrome");
    assert(texts(v@) =~= start + chrome_paths(found@));
}

fn push_chromium(v: &mut Vec<String>, found: &Vec<Found>)
    ensures
        texts(final(v)@) == texts(old(v)@) + chromium_paths(found@),
{
    let ghost start = texts(v@);
    push_found(v, found, "chromium");
    push_found(v, found, "chromium-browser");
    push_text(v, "/usr/bin/chromium");
    push_text(v, "/usr/bin/chromium-browser");
    push_text(v, "/snap/bin/chromium");
    push_text(v, "/Applications/Chromium.app/Contents/MacOS/Chromium");
    assert(texts(v@) =~= start + chromium_paths(found@));
}

fn push_edge(v: &mut Vec<String>, found: &Vec<Found>)
    ensures
        texts(final(v)@) == texts(old(v)@) + edge_paths(found@),
{
    let ghost start = texts(v@);
    push_found(v, found, "microsoft-edge");
    push_text(v, "/Applications/Microsoft Edge.app/Contents/MacOS/Microsoft Edge");
    assert(texts(v@) =~= start + edge_paths(found@));
}

/// Where the browser of an engine may be, after the places in `v`.
pub fn push_engine_paths(v: &mut Vec<String>, s: &str, found: &Vec<Found>)
    ensures
        texts(final(v)@) == texts(old(v)@) + engine_paths(s@, found@),
{
    let ghost head = texts(v@);
    if same(s, "chrome") {
        push_chrome(v, found);
    } else if s.is_empty() {
        push_chromium(v, found);
        push_chrome(v, found);
        push_edge(v, found);
    } else if same(s, "chromium") {
        push_chromium(v, found);
        push_chrome(v, found);
    } else if same(s, "msedge") || same(s, "edge") {
        push_edge(v, found);
    } else {
        push_found(v, found, s);
        push_chromium(v, found);
        push_chrome(v, found);
    }
    assert(texts(v@) =~= head + engine_paths(s@, found@));
}

/// Where a browser may be, the best place first. `named` is what the environment names, and
/// `found` are the programs that the search path holds.
pub fn browser_candidates(engine: Option<&str>, named: Option<&str>, found: &Vec<Found>) -> (r: Vec<
    String,
>)
    ensures
        texts(r@) == candidates(opt_str(engine), opt_str(named), found@),
{
    let mut v: Vec<String> = Vec::new();
    if let Some(p) = named {
        let t = trimmed(p);
        if !t.as_str().is_empty() {
            v.push(t);
        }
    }
    let ghost head = texts(v@);
    assert(head =~= named_path(opt_str(named)));
    proof {
        reveal_strlit("");
        assert(""@ =~= Seq::<char>::empty());
    }
    match engine {
        Some(s) => {
            let e = s.to_lowercase();
            push_engine_paths(&mut v, e.as_str(), found);
        },
        None => push_engine_paths(&mut v, "", found),
    }
    v
}

// ---------------------------------------------------------------------------
// The choice
// ---------------------------------------------------------------------------

/// A text in Rust's debug notation, with its quotes and escapes.
pub uninterp spec fn debug_text(s: Seq<char>) -> Seq<char>;

/// The `Debug` of a `str`: a function of the text alone.
#[verifier::external_body]
fn debugged(s: &str) -> (r: String)
    ensures
        r@ == debug_text(s@),
{
    format!("{:?}", s)
}

/// The first place that exists.
pub open spec fn first_existing(cands: Seq<Seq<char>>, exists: Seq<bool>) -> Option<Seq<char>>
    decreases cands.len(),
{
    if cands.len() == 0 || exists.len() == 0 {
        None
    } else if exists[0] {
        Some(cands[0])
    } else {
        first_existing(cands.drop_first(), exists.drop_first())
    }
}

/// What is reported where no place exists.
pub open spec fn no_browser(engine: Seq<char>, cands: Seq<Seq<char>>) -> Seq<char> {
    "找不到可用的浏览器引擎（engine="@ + debug_text(engine) + "）。已尝试："@ + join(cands, "、"@)
        + "。可设置环境变量 SUB2OP_BROWSER=<浏览器可执行文件路径> 指定。"@
}

/// Chooses the first candidate that exists.
pub fn detect_executable(engine: Option<&str>, cands: &Vec<String>, exists: &Vec<bool>) -> (r:
    Result<String, String>)
    requires
        cands@.len() == exists@.len(),
    ensures
        match r {
            Ok(p) => first_existing(texts(cands@), exists@) == Some(p@),
            Err(e) => first_existing(texts(cands@), exists@) is None && e@ == no_browser(
                opt_str(engine).unwrap_or(Seq::empty()),
                texts(cands@),
            ),
        },
{
    let ghost all = texts(cands@);
    let mut i: usize = 0;
    assert(all.skip(0) == all);
    assert(exists@.skip(0) == exists@);
    while i < cands.len()
        invariant
            i <= cands@.len(),
            cands@.len() == exists@.len(),
            all == texts(cands@),
            first_existing(all, exists@) == first_existing(
                all.skip(i as int),
                exists@.skip(i as int),
            ),
        decreases cands@.len() - i,
    {
        assert(all.skip(i as int).drop_first() == all.skip(i + 1));
        assert(exists@.skip(i as int).drop_first() == exists@.skip(i + 1));
        if exists[i] {
            return Ok(cands[i].clone());
        }
        i += 1;
    }
    let name = match engine {
        Some(s) => s,
        None => "",
    };
    proof {
        reveal_strlit("");
        assert(""@ =~= Seq::<char>::empty());
    }
    let d = debugged(name);
    let list = joined(cands, "、");
    Err(
        text5(
            "找不到可用的浏览器引擎（engine=",
            d.as_str(),
            "）。已尝试：",
            list.as_str(),
            "。可设置环境变量 SUB2OP_BROWSER=<浏览器可执行文件路径> 指定。",
        ),
    )
}

/// What is reported of one engine: whether it is there, what is wrong, and where it is.
pub open spec fn engine_fields(name: Seq<char>, r: Result<String, String>) -> Seq<
    (Seq<char>, JsonV),
> {
    seq![
        (name, JsonV::Bool(r is Ok)),
        (name + "Error"@, match r {
            Ok(_) => JsonV::Null,
            Err(e) => JsonV::Str(e@),
        }),
        (name + "Path"@, match r {
            Ok(p) => JsonV::Str(p@),
            Err(_) => JsonV::Null,
        }),
    ]
}

fn push_engine(o: &mut Vec<(String, Json)>, name: &str, r: &Result<String, String>)
    ensures
        entries(final(o)@) == entries(old(o)@) + engine_fields(name@, *r),
{
    let ghost start = entries(o@);
    let found = bool_doc(r.is_ok());
    let error = match r {
        Ok(_) => null_doc(),
        Err(e) => string_doc(e.as_str()),
    };
    let path = match r {
        Ok(p) => string_doc(p.as_str()),
        Err(_) => null_doc(),
    };
    o.push((name.to_owned(), found));
    o.push((text2(name, "Error"), error));
    o.push((text2(name, "Path"), path));
    assert(entries(o@) =~= start + engine_fields(name@, *r));
}

/// Reports which engines there are.
pub fn check_engines(chrome: &Result<String, String>, chromium: &Result<String, String>) -> (r:
    Json)
    ensures
        r@ == JsonV::Obj(engine_fields("chrome"@, *chrome) + engine_fields("chromium"@, *chromium)),
{
    let mut o: Vec<(String, Json)> = Vec::new();
    push_engine(&mut o, "chrome", chrome);
    push_engine(&mut o, "chromium", chromium);
    let ghost e = entries(o@);
    let r = Json::Obj(o);
    assert(r@->Obj_0 =~= e);
    assert(e =~= engine_fields("chrome"@, *chrome) + engine_fields("chromium"@, *chromium));
    r
}

// ---------------------------------------------------------------------------
// Versions
// ---------------------------------------------------------------------------

/// The version in what a browser prints of itself: its last word.
pub open spec fn version_in(printed: Seq<char>) -> Option<Seq<char>> {
    if words(printed).len() == 0 {
        None
    } else {
        Some(words(printed).last())
    }
}

/// The major and the full version in what a browser prints of itself.
pub fn chrome_version(printed: &str) -> (r: Option<(String, String)>)
    ensures
        match r {
            Some((major, full)) => version_in(printed@) == Some(full@) && major@ == split(
                full@,
                '.',
            )[0],
            None => version_in(printed@) is None,
        },
{
    let parts = split_words(printed);
    if parts.len() == 0 {
        return None;
    }
    let full = parts[parts.len() - 1].clone();
    let numbers = split_at_char(full.as_str(), '.');
    assert(texts(numbers@)[0] == numbers@[0]@);
    Some((numbers[0].clone(), full))
}

// ---------------------------------------------------------------------------
// Laws
// ---------------------------------------------------------------------------

/// The chosen place exists, and none before it does; there is none only where none exists.
pub proof fn law_first_existing(cands: Seq<Seq<char>>, exists: Seq<bool>)
    requires
        cands.len() == exists.len(),
    ensures
        match first_existing(cands, exists) {
            Some(p) => exists|i: int|
                0 <= i < cands.len() && #[trigger] exists[i] && cands[i] == p && (forall|j: int|
                    0 <= j < i ==> !#[trigger] exists[j]),
            None => forall|j: int| 0 <= j < exists.len() ==> !#[trigger] exists[j],
        },
    decreases cands.len(),
{
    if cands.len() > 0 && !exists[0] {
        let c = cands.drop_first();
        let e = exists.drop_first();
        law_first_existing(c, e);
        match first_existing(c, e) {
            Some(p) => {
                let i = choose|i: int|
                    0 <= i < c.len() && #[trigger] e[i] && c[i] == p && (forall|j: int|
                        0 <= j < i ==> !#[trigger] e[j]);
                assert(exists[i + 1] && cands[i + 1] == p);
                assert forall|j: int| 0 <= j < i + 1 implies !#[trigger] exists[j] by {
                    if j > 0 {
                        assert(!e[j - 1]);
                    }
                }
            },
            None => {
                assert forall|j: int| 0 <= j < exists.len() implies !#[trigger] exists[j] by {
                    if j > 0 {
                        assert(!e[j - 1]);
                    }
                }
            },
        }
    } else if cands.len() > 0 {
        assert(exists[0] && cands[0] == first_existing(cands, exists)->0);
    }
}

/// A program is looked up by its name: the first that was found under it counts.
pub proof fn law_path_of(found: Seq<Found>, name: Seq<char>)
    ensures
        path_of(found, name).len() == 0 ==> forall|j: int|
            0 <= j < found.len() ==> (#[trigger] found[j]).name@ != name,
        path_of(found, name).len() > 0 ==> path_of(found, name).len() == 1 && exists|i: int|
            0 <= i < found.len() && (#[trigger] found[i]).name@ == name && found[i].path@ == path_of(
                found,
                name,
            )[0] && (forall|j: int| 0 <= j < i ==> (#[trigger] found[j]).name@ != name),
    decreases found.len(),
{
    if found.len() > 0 {
        if found[0].name@ == name {
            assert(path_of(found, name)[0] == found[0].path@);
        } else {
            let t = found.drop_first();
            law_path_of(t, name);
            if path_of(t, name).len() == 0 {
                assert forall|j: int| 0 <= j < found.len() implies (#[trigger] found[j]).name@
                    != name by {
                    if j > 0 {
                        assert(found[j] == t[j - 1]);
                    }
                }
            } else {
                let i = choose|i: int|
                    0 <= i < t.len() && (#[trigger] t[i]).name@ == name && t[i].path@ == path_of(
                        t,
                        name,
                    )[0] && (forall|j: int| 0 <= j < i ==> (#[trigger] t[j]).name@ != name);
                assert(found[i + 1] == t[i]);
                assert forall|j: int| 0 <= j < i + 1 implies (#[trigger] found[j]).name@ != name by {
                    if j > 0 {
                        assert(found[j] == t[j - 1]);
                    }
                }
            }
        }
    }
}

/// Where the environment names a browser, that one comes first; without an engine Chromium, Chrome
/// and Edge follow, and with a known one nothing but what belongs to it.
pub proof fn law_candidates(engine: Seq<char>, named: Seq<char>, found: Seq<Found>)
    ensures
        candidates(None, None, found) == chromium_paths(found) + chrome_paths(found) + edge_paths(
            found,
        ),
        candidates(Some(engine), None, found) == engine_paths(lowercase(engine), found),
        !only_spaces(named) ==> candidates(Some(engine), Some(named), found) == seq![trim(named)]
            + candidates(Some(engine), None, found),
        only_spaces(named) ==> candidates(Some(engine), Some(named), found) == candidates(
            Some(engine),
            None,
            found,
        ),
        engine_paths("chrome"@, found) == chrome_paths(found),
        engine_paths("chromium"@, found) == chromium_paths(found) + chrome_paths(found),
        engine_paths("edge"@, found) == edge_paths(found),
        engine_paths("msedge"@, found) == edge_paths(found),
        chrome_paths(found).contains("/usr/bin/google-chrome"@),
        chromium_paths(found).contains("/usr/bin/chromium"@),
{
    reveal_strlit("chrome");
    reveal_strlit("chromium");
    reveal_strlit("edge");
    reveal_strlit("msedge");
    law_trim(named);
    let none = Seq::<Seq<char>>::empty();
    let e = engine_paths(lowercase(engine), found);
    let d = engine_paths(Seq::empty(), found);
    assert("chrome"@.len() == 6 && "chromium"@.len() == 8 && "edge"@.len() == 4 && "msedge"@.len()
        == 6);
    assert("msedge"@[0] == 'm' && "chrome"@[0] == 'c');
    assert("msedge"@ != "chrome"@);
    assert(none + e =~= e);
    assert(none + d =~= d);
    let c = chrome_paths(found);
    assert(c[c.len() - 1] == "/usr/bin/google-chrome"@);
    let m = chromium_paths(found);
    assert(m[m.len() - 4] == "/usr/bin/chromium"@);
}

/// A version is the last word that a browser prints.
pub proof fn law_version(v: Seq<char>)
    requires
        v.len() > 0,
        forall|i: int| 0 <= i < v.len() ==> !is_space(#[trigger] v[i]),
    ensures
        version_in(v) == Some(v),
        version_in(Seq::empty()) is None,
{
    law_words(v, ' ', Seq::empty());
    assert(words(v).last() == v);
}

// ---------------------------------------------------------------------------
// Laws on what a call gives
// ---------------------------------------------------------------------------

/// The version of a browser is the last word that it prints, whatever comes before it.
pub proof fn law_printed_version(s: Seq<char>, v: Seq<char>)
    requires
        v.len() > 0,
        forall|i: int| 0 <= i < v.len() ==> !is_space(#[trigger] v[i]),
    ensures
        version_in(s + seq![' '] + v) == Some(v),
{
    law_last_word(s, ' ', v);
}

/// The major version is the part before the first dot.
pub proof fn law_read_version(
    printed: &str,
    r: Option<(String, String)>,
    s: Seq<char>,
    major: Seq<char>,
    minor: Seq<char>,
)
    requires
        call_ensures(chrome_version, (printed,), r),
        printed@ == s + seq![' '] + (major + seq!['.'] + minor),
        !major.contains('.'),
        forall|i: int| 0 <= i < major.len() ==> !is_space(#[trigger] major[i]),
        forall|i: int| 0 <= i < minor.len() ==> !is_space(#[trigger] minor[i]),
    ensures
        r matches Some((m, f)) && m@ == major && f@ == major + seq!['.'] + minor,
{
    let v = major + seq!['.'] + minor;
    assert forall|i: int| 0 <= i < v.len() implies !is_space(#[trigger] v[i]) by {
        if i > major.len() {
            assert(v[i] == minor[i - major.len() - 1]);
        } else if i < major.len() {
            assert(v[i] == major[i]);
        }
    }
    law_printed_version(s, v);
    law_split(major, minor, '.');
}

/// The browser that is used is the first of the candidates that is there, and there is an error
/// only where none is.
pub proof fn law_used_browser(
    engine: Option<&str>,
    cands: &Vec<String>,
    found: &Vec<bool>,
    r: Result<String, String>,
)
    requires
        call_ensures(detect_executable, (engine, cands, found), r),
        cands@.len() == found@.len(),
    ensures
        match r {
            Ok(p) => exists|i: int|
                0 <= i < cands@.len() && #[trigger] found@[i] && cands@[i]@ == p@ && (forall|j: int|
                    0 <= j < i ==> !#[trigger] found@[j]),
            Err(_) => forall|j: int| 0 <= j < found@.len() ==> !#[trigger] found@[j],
        },
{
    law_first_existing(texts(cands@), found@);
    assert(texts(cands@).len() == cands@.len());
    if let Ok(p) = r {
        let i = choose|i: int|
            0 <= i < texts(cands@).len() && #[trigger] found@[i] && texts(cands@)[i] == p@ && (
            forall|j: int| 0 <= j < i ==> !#[trigger] found@[j]);
        assert(texts(cands@)[i] == cands@[i]@);
    }
}

/// A browser that the user names comes before every other candidate.
pub proof fn law_named_browser_comes_first(
    engine: Option<&str>,
    named: &str,
    found: &Vec<Found>,
    r: Vec<String>,
)
    requires
        call_ensures(browser_candidates, (engine, Some(named), found), r),
        !only_spaces(named@),
    ensures
        r@.len() > 0,
        is_core(named@, r@[0]@),
{
    law_trim(named@);
    assert(texts(r@).len() == r@.len());
    assert(texts(r@)[0] == trim(named@));
    assert(texts(r@)[0] == r@[0]@);
}

/// Only the third mode shows a window, and only the first is plain.
pub proof fn law_modes(m: BrowserMode, headed: bool, stealth: bool, organic: bool)
    requires
        call_ensures(BrowserMode::headed, (m,), headed),
        call_ensures(BrowserMode::stealth, (m,), stealth),
        call_ensures(BrowserMode::organic, (m,), organic),
    ensures
        headed == (m is StealthHeaded),
        stealth == !(m is Headless),
        organic == !(m is Headless),
{
}

/// Where each engine is looked for, in order; an engine of another name is looked for under that
/// name, and after that Chromium and Chrome are.
pub proof fn law_engine_paths(e: Seq<char>, found: Seq<Found>)
    ensures
        chrome_paths(found) == path_of(found, "google-chrome"@) + path_of(
            found,
            "google-chrome-stable"@,
        ) + seq![
            "/Applications/Google Chrome.app/Contents/MacOS/Google Chrome"@,
            "/usr/bin/google-chrome"@,
        ],
        chromium_paths(found) == path_of(found, "chromium"@) + path_of(found, "chromium-browser"@)
            + seq![
            "/usr/bin/chromium"@,
            "/usr/bin/chromium-browser"@,
            "/snap/bin/chromium"@,
            "/Applications/Chromium.app/Contents/MacOS/Chromium"@,
        ],
        edge_paths(found) == path_of(found, "microsoft-edge"@) + seq![
            "/Applications/Microsoft Edge.app/Contents/MacOS/Microsoft Edge"@,
        ],
        e.len() > 0 && e != "chrome"@ && e != "chromium"@ && e != "edge"@ && e != "msedge"@
            ==> engine_paths(e, found) == path_of(found, e) + chromium_paths(found) + chrome_paths(
            found,
        ),
{
}

/// What is reported of the engines tells of each whether it is there, and where or why not.
pub proof fn law_engine_report(
    chrome: &Result<String, String>,
    chromium: &Result<String, String>,
    r: Json,
)
    requires
        call_ensures(check_engines, (chrome, chromium), r),
    ensures
        r@ matches JsonV::Obj(o) && o.len() == 6 && o[0] == ("chrome"@, JsonV::Bool(chrome is Ok))
            && o[3] == ("chromium"@, JsonV::Bool(chromium is Ok)) && (chrome matches Ok(p) ==> o[2].1
            == JsonV::Str(p@) && o[1].1 is Null) && (chrome matches Err(e) ==> o[1].1 == JsonV::Str(
            e@,
        ) && o[2].1 is Null) && (chromium matches Ok(p) ==> o[5].1 == JsonV::Str(p@)) && (
        chromium matches Err(e) ==> o[4].1 == JsonV::Str(e@)),
{
}

/// That there is no browser is reported with every place where it was looked for.
pub proof fn law_no_browser(engine: Seq<char>, cands: Seq<Seq<char>>)
    ensures
        no_browser(engine, cands) == "找不到可用的浏览器引擎（engine="@ + debug_text(engine)
            + "）。已尝试："@ + join(cands, "、"@)
            + "。可设置环境变量 SUB2OP_BROWSER=<浏览器可执行文件路径> 指定。"@,
{
}

} // verus!
