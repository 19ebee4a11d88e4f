//! Row derivation: turning raw source items (path, recorded head entries,
//! timestamp strings) into the render-ready rows the picker lists.

use vstd::prelude::*;
use vstd::string::StringExecFns;
use crate::text::{
    append_chars, chars_of, contains_seq, ends_with_chars, find_sub, has_prefix, has_suffix,
    match_at, starts_with_chars, string_from_chars, sub_chars, trim_chars, trim_of,
};
use crate::time::{parse_rfc3339_seconds, rfc3339_epoch};

verus! {

/// The mathematical content of one row: its identity, preview text, and
/// optional creation and last-update times in Unix seconds.
pub struct RowModel {
    pub path: Seq<char>,
    pub preview: Seq<char>,
    pub created_at: Option<i64>,
    pub updated_at: Option<i64>,
}

/// One render-ready entry of the list. The path is the row's stable
/// identity; the preview is never empty.
pub struct Row {
    pub path: String,
    pub preview: String,
    pub created_at: Option<i64>,
    pub updated_at: Option<i64>,
}

impl View for Row {
    type V = RowModel;

    open spec fn view(&self) -> RowModel {
        RowModel {
            path: self.path@,
            preview: self.preview@,
            created_at: self.created_at,
            updated_at: self.updated_at,
        }
    }
}

impl Clone for Row {
    fn clone(&self) -> (r: Self)
        ensures
            r == *self,
    {
        Row {
            path: self.path.clone(),
            preview: self.preview.clone(),
            created_at: self.created_at,
            updated_at: self.updated_at,
        }
    }
}

/// The models of a sequence of rows.
pub open spec fn row_models(rows: Seq<Row>) -> Seq<RowModel> {
    rows.map_values(|r: Row| r@)
}

/// One piece of content inside a recorded message.
pub enum ContentEntry {
    InputText { text: String },
    OtherContent,
}

/// One recorded head entry of a source item: an optional timestamp field,
/// and, when the entry is a message, its content pieces.
pub struct HeadRecord {
    pub timestamp: Option<String>,
    pub message: Option<Vec<ContentEntry>>,
}

/// One raw item as delivered by the page source.
pub struct SourceItem {
    pub path: String,
    pub head: Vec<HeadRecord>,
    pub created_at: Option<String>,
    pub updated_at: Option<String>,
}

/// The trimmed text is a user-instructions block.
pub open spec fn user_instructions_text(t: Seq<char>) -> bool {
    has_prefix(trim_of(t), "<user_instructions>"@) && has_suffix(
        trim_of(t),
        "</user_instructions>"@,
    )
}

/// The trimmed text is an environment-context block.
pub open spec fn environment_context_text(t: Seq<char>) -> bool {
    has_prefix(trim_of(t), "<environment_context>"@) && has_suffix(
        trim_of(t),
        "</environment_context>"@,
    )
}

/// The text is an ordinary typed user message, not an injected block.
pub open spec fn plain_user_text(t: Seq<char>) -> bool {
    !user_instructions_text(t) && !environment_context_text(t)
}

/// The position of the first occurrence of the needle in the haystack.
pub open spec fn first_match(h: Seq<char>, n: Seq<char>) -> int
    recommends
        contains_seq(h, n),
{
    choose|i: int| match_at(h, n, i) && (forall|j: int| 0 <= j < i ==> !match_at(h, n, j))
}

pub proof fn lemma_first_match_unique(h: Seq<char>, n: Seq<char>, i: int)
    requires
        match_at(h, n, i),
        forall|j: int| 0 <= j < i ==> !match_at(h, n, j),
    ensures
        first_match(h, n) == i,
{
    let w = first_match(h, n);
    assert(match_at(h, n, w) && (forall|j: int| 0 <= j < w ==> !match_at(h, n, j))) by {
        assert(match_at(h, n, i) && (forall|j: int| 0 <= j < i ==> !match_at(h, n, j)));
    }
    if w < i {
        assert(!match_at(h, n, w));
    }
    if i < w {
        assert(!match_at(h, n, i));
    }
}

/// The text after the editor-context marker, trimmed; or the text unchanged
/// when no marker occurs.
pub open spec fn strip_context(t: Seq<char>) -> Seq<char> {
    let m = "## My request for Codex:"@;
    if contains_seq(t, m) {
        trim_of(t.subrange(first_match(t, m) + m.len(), t.len() as int))
    } else {
        t
    }
}

/// What one content entry contributes to the preview: its stripped text when
/// it is a plainly typed user text, nothing otherwise.
pub open spec fn entry_text(e: ContentEntry) -> Seq<char> {
    match e {
        ContentEntry::InputText { text } => if plain_user_text(text@) {
            strip_context(text@)
        } else {
            Seq::empty()
        },
        ContentEntry::OtherContent => Seq::empty(),
    }
}

/// The preview a message yields: its entries' contributions, concatenated.
pub open spec fn message_preview(es: Seq<ContentEntry>) -> Seq<char>
    decreases es.len(),
{
    if es.len() == 0 {
        Seq::empty()
    } else {
        message_preview(es.drop_last()) + entry_text(es.last())
    }
}

/// The preview of a head: the first message entry whose preview is
/// non-empty, or nothing when no such entry exists.
pub open spec fn head_preview(hs: Seq<HeadRecord>) -> Option<Seq<char>>
    decreases hs.len(),
{
    if hs.len() == 0 {
        None
    } else {
        match hs.first().message {
            Some(es) => if message_preview(es@).len() > 0 {
                Some(message_preview(es@))
            } else {
                head_preview(hs.drop_first())
            },
            None => head_preview(hs.drop_first()),
        }
    }
}

/// The preview text of a row derived from a head: the trimmed head preview,
/// or the placeholder when there is none or it trims to nothing.
pub open spec fn preview_model(hs: Seq<HeadRecord>) -> Seq<char> {
    match head_preview(hs) {
        Some(p) => if trim_of(p).len() > 0 {
            trim_of(p)
        } else {
            "(no message yet)"@
        },
        None => "(no message yet)"@,
    }
}

/// The Unix time denoted by an optional timestamp string.
pub open spec fn opt_epoch(s: Option<String>) -> Option<i64> {
    match s {
        Some(t) => rfc3339_epoch(t@),
        None => None,
    }
}

/// The Unix time read from the first head entry's timestamp field.
pub open spec fn head_epoch(hs: Seq<HeadRecord>) -> Option<i64> {
    if hs.len() == 0 {
        None
    } else {
        opt_epoch(hs.first().timestamp)
    }
}

/// A row's creation time: the item's own field, with the first head entry's
/// timestamp as fallback.
pub open spec fn created_model(it: SourceItem) -> Option<i64> {
    match opt_epoch(it.created_at) {
        Some(t) => Some(t),
        None => head_epoch(it.head@),
    }
}

/// A row's last-update time: the item's own field, with the creation time as
/// fallback.
pub open spec fn updated_model(it: SourceItem) -> Option<i64> {
    match opt_epoch(it.updated_at) {
        Some(t) => Some(t),
        None => created_model(it),
    }
}

/// The row model a source item yields.
pub open spec fn item_model(it: SourceItem) -> RowModel {
    RowModel {
        path: it.path@,
        preview: preview_model(it.head@),
        created_at: created_model(it),
        updated_at: updated_model(it),
    }
}

/// The row models of a sequence of source items.
pub open spec fn models_of_items(items: Seq<SourceItem>) -> Seq<RowModel> {
    items.map_values(|it: SourceItem| item_model(it))
}

fn plain_user_text_exec(t: &Vec<char>) -> (r: bool)
    ensures
        r == plain_user_text(t@),
{
    let w = trim_chars(t);
    let ui_open = chars_of("<user_instructions>");
    let ui_close = chars_of("</user_instructions>");
    let ec_open = chars_of("<environment_context>");
    let ec_close = chars_of("</environment_context>");
    let is_ui = starts_with_chars(&w, &ui_open) && ends_with_chars(&w, &ui_close);
    let is_ec = starts_with_chars(&w, &ec_open) && ends_with_chars(&w, &ec_close);
    !is_ui && !is_ec
}

fn strip_context_exec(t: &Vec<char>) -> (r: Vec<char>)
    ensures
        r@ == strip_context(t@),
{
    let m = chars_of("## My request for Codex:");
    match find_sub(t, &m) {
        Some(i) => {
            let tl: usize = t.len();
            proof {
                lemma_first_match_unique(t@, m@, i as int);
                assert(i + m@.len() <= tl);
            }
            let rest = sub_chars(t, i + m.len(), tl);
            trim_chars(&rest)
        },
        None => sub_chars(t, 0, t.len()),
    }
}

fn entry_text_exec(e: &ContentEntry) -> (r: Vec<char>)
    ensures
        r@ == entry_text(*e),
{
    match e {
        ContentEntry::InputText { text } => {
            let tv = chars_of(text.as_str());
            if plain_user_text_exec(&tv) {
                strip_context_exec(&tv)
            } else {
                Vec::new()
            }
        },
        ContentEntry::OtherContent => Vec::new(),
    }
}

fn message_preview_exec(es: &Vec<ContentEntry>) -> (r: Vec<char>)
    ensures
        r@ == message_preview(es@),
{
    let mut r: Vec<char> = Vec::new();
    let mut i: usize = 0;
    while i < es.len()
        invariant
            i <= es@.len(),
            r@ == message_preview(es@.subrange(0, i as int)),
        decreases es@.len() - i,
    {
        let part = entry_text_exec(&es[i]);
        append_chars(&mut r, &part);
        proof {
            let pre = es@.subrange(0, i as int);
            let cur = es@.subrange(0, i + 1);
            assert(cur.drop_last() =~= pre);
            assert(cur.last() == es@[i as int]);
        }
        i += 1;
    }
    proof {
        assert(es@.subrange(0, es@.len() as int) =~= es@);
    }
    r
}

/// The preview text of a head, when any message entry yields one.
pub fn preview_from_head(head: &Vec<HeadRecord>) -> (r: Option<String>)
    ensures
        match r {
            Some(s) => head_preview(head@) == Some(s@),
            None => head_preview(head@) is None,
        },
{
    let mut i: usize = 0;
    proof {
        assert(head@.subrange(0, head@.len() as int) =~= head@);
    }
    while i < head.len()
        invariant
            i <= head@.len(),
            head_preview(head@) == head_preview(head@.subrange(i as int, head@.len() as int)),
        decreases head@.len() - i,
    {
        let ghost sub = head@.subrange(i as int, head@.len() as int);
        proof {
            assert(sub.first() == head@[i as int]);
            assert(sub.drop_first() =~= head@.subrange(i + 1, head@.len() as int));
        }
        match &head[i].message {
            Some(es) => {
                let p = message_preview_exec(es);
                if p.len() > 0 {
                    return Some(string_from_chars(&p));
                }
            },
            None => {},
        }
        i += 1;
    }
    None
}

fn head_timestamp(head: &Vec<HeadRecord>) -> (r: Option<i64>)
    ensures
        r == head_epoch(head@),
{
    if head.len() == 0 {
        None
    } else {
        match &head[0].timestamp {
            Some(s) => parse_rfc3339_seconds(s.as_str()),
            None => None,
        }
    }
}

/// Derives the render-ready row of one source item.
pub fn head_to_row(item: &SourceItem) -> (r: Row)
    ensures
        r@ == item_model(*item),
{
    let parsed_created = match &item.created_at {
        Some(s) => parse_rfc3339_seconds(s.as_str()),
        None => None,
    };
    let created_at = match parsed_created {
        Some(t) => Some(t),
        None => head_timestamp(&item.head),
    };
    let parsed_updated = match &item.updated_at {
        Some(s) => parse_rfc3339_seconds(s.as_str()),
        None => None,
    };
    let updated_at = match parsed_updated {
        Some(t) => Some(t),
        None => created_at,
    };
    let preview = match preview_from_head(&item.head) {
        Some(s) => {
            let sv = chars_of(s.as_str());
            let tv = trim_chars(&sv);
            if tv.len() > 0 {
                string_from_chars(&tv)
            } else {
                String::from_str("(no message yet)")
            }
        },
        None => String::from_str("(no message yet)"),
    };
    Row { path: item.path.clone(), preview, created_at, updated_at }
}

/// Derives the rows of a whole page of source items, in source order.
pub fn rows_from_items(items: &Vec<SourceItem>) -> (r: Vec<Row>)
    ensures
        row_models(r@) == models_of_items(items@),
{
    let mut r: Vec<Row> = Vec::new();
    let mut i: usize = 0;
    while i < items.len()
        invariant
            i <= items@.len(),
            row_models(r@) == models_of_items(items@.subrange(0, i as int)),
        decreases items@.len() - i,
    {
        let row = head_to_row(&items[i]);
        let ghost prev = r@;
        r.push(row);
        proof {
            let pre = items@.subrange(0, i as int);
            let cur = items@.subrange(0, i + 1);
            assert(cur.drop_last() =~= pre);
            assert(row_models(prev).len() == prev.len());
            assert(models_of_items(pre).len() == pre.len());
            assert(prev.len() == i);
            let lhs = row_models(r@);
            let rhs = models_of_items(cur);
            assert forall|k: int| 0 <= k < lhs.len() implies lhs[k] == rhs[k] by {
                if k < i {
                    assert(r@[k] == prev[k]);
                    assert(row_models(prev)[k] == models_of_items(pre)[k]);
                    assert(cur[k] == pre[k]);
                } else {
                    assert(r@[k] == row);
                    assert(cur[k] == items@[k]);
                }
            }
            assert(lhs =~= rhs);
        }
        i += 1;
    }
    proof {
        assert(items@.subrange(0, items@.len() as int) =~= items@);
    }
    r
}

} // verus!
