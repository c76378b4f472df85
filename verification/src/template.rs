//! The template renderer.  A template is ordinary page text with one
//! `{{joy}}` placeholder; rendering replaces the placeholder with a
//! heading and a word list for every category of the document.

use vstd::prelude::*;
use vstd::utf8::encode_utf8;
use crate::bytes_util::append_slice;
use crate::bytes_util::contains_bytes;
use crate::bytes_util::copy_range;
use crate::bytes_util::find_bytes;
use crate::bytes_util::is_match;
use crate::errors::ServerError;
use crate::joy::JoyData;

verus! {

/// The placeholder a template must hold where the listing goes.
pub open spec fn spec_marker() -> Seq<u8> {
    encode_utf8("{{joy}}"@)
}

/// A parsed template: the bytes before and after the placeholder.
pub struct Template {
    pub before: Vec<u8>,
    pub after: Vec<u8>,
}

/// Parses a template.  The text must hold the placeholder; its first
/// occurrence splits the text in two.
pub fn parse_template(text: &[u8]) -> (r: Result<Template, ServerError>)
    ensures
        r is Ok <==> contains_bytes(text@, spec_marker()),
        r is Ok ==> exists|i: int|
            #[trigger] is_match(text@, spec_marker(), i)
                && (forall|j: int| 0 <= j < i ==> !is_match(text@, spec_marker(), j))
                && (r->Ok_0).before@ == text@.subrange(0, i)
                && (r->Ok_0).after@ == text@.subrange(i + spec_marker().len(), text@.len() as int),
        r is Err ==> r->Err_0 is Startup,
{
    let text_len = text.len();
    let marker = "{{joy}}".as_bytes();
    match find_bytes(text, marker) {
        Some(i) => {
            let before = copy_range(text, 0, i);
            let after = copy_range(text, i + marker.len(), text_len);
            proof {
                assert(marker@ == spec_marker());
                assert(is_match(text@, spec_marker(), i as int));
            }
            Ok(Template { before, after })
        },
        None => Err(ServerError::Startup("the template has no {{joy}} placeholder".to_owned())),
    }
}

/// The rendering of one word.
pub open spec fn spec_word_item(w: Seq<char>) -> Seq<u8> {
    encode_utf8("<li>"@) + encode_utf8(w) + encode_utf8("</li>\n"@)
}

/// The rendering of a list of words, in order.
pub open spec fn spec_words_block(ws: Seq<Seq<char>>) -> Seq<u8>
    decreases ws.len(),
{
    if ws.len() == 0 {
        Seq::empty()
    } else {
        spec_words_block(ws.drop_last()) + spec_word_item(ws.last())
    }
}

/// The rendering of one category: a heading, then its words as a list.
pub open spec fn spec_entry_block(e: (Seq<char>, Seq<Seq<char>>)) -> Seq<u8> {
    encode_utf8("<h2>"@) + encode_utf8(e.0) + encode_utf8("</h2>\n<ul>\n"@)
        + spec_words_block(e.1) + encode_utf8("</ul>\n"@)
}

/// The rendering of all categories, in order.
pub open spec fn spec_entries_block(es: Seq<(Seq<char>, Seq<Seq<char>>)>) -> Seq<u8>
    decreases es.len(),
{
    if es.len() == 0 {
        Seq::empty()
    } else {
        spec_entries_block(es.drop_last()) + spec_entry_block(es.last())
    }
}

/// The whole page: the template's text around the listing.
pub open spec fn spec_render(
    before: Seq<u8>,
    after: Seq<u8>,
    data: Seq<(Seq<char>, Seq<Seq<char>>)>,
) -> Seq<u8> {
    before + spec_entries_block(data) + after
}

proof fn lemma_words_block_step(ws: Seq<Seq<char>>, k: int)
    requires
        0 <= k < ws.len(),
    ensures
        spec_words_block(ws.take(k + 1)) == spec_words_block(ws.take(k)) + spec_word_item(ws[k]),
{
    assert(ws.take(k + 1).drop_last() =~= ws.take(k));
    assert(ws.take(k + 1).last() == ws[k]);
}

proof fn lemma_entries_block_step(es: Seq<(Seq<char>, Seq<Seq<char>>)>, k: int)
    requires
        0 <= k < es.len(),
    ensures
        spec_entries_block(es.take(k + 1)) == spec_entries_block(es.take(k))
            + spec_entry_block(es[k]),
{
    assert(es.take(k + 1).drop_last() =~= es.take(k));
    assert(es.take(k + 1).last() == es[k]);
}

/// Renders the page: the template's text with one section per category.
pub fn render(tpl: &Template, data: &JoyData) -> (out: Vec<u8>)
    ensures
        out@ == spec_render(tpl.before@, tpl.after@, data@),
{
    let mut out: Vec<u8> = Vec::new();
    append_slice(&mut out, tpl.before.as_slice());
    proof {
        assert(data@.take(0) =~= Seq::<(Seq<char>, Seq<Seq<char>>)>::empty());
        assert(out@ =~= tpl.before@ + spec_entries_block(data@.take(0)));
    }
    let n = data.entries.len();
    let mut i: usize = 0;
    while i < n
        invariant
            n == data.entries@.len(),
            data@.len() == n,
            i <= n,
            out@ == tpl.before@ + spec_entries_block(data@.take(i as int)),
        decreases n - i,
    {
        append_slice(&mut out, "<h2>".as_bytes());
        append_slice(&mut out, data.entries[i].key.as_str().as_bytes());
        append_slice(&mut out, "</h2>\n<ul>\n".as_bytes());
        let ghost entry_prefix = out@;
        let ghost ws = data.entries@[i as int].words.deep_view();
        let m = data.entries[i].words.len();
        let mut k: usize = 0;
        proof {
            assert(ws.take(0) =~= Seq::<Seq<char>>::empty());
            assert(out@ =~= entry_prefix + spec_words_block(ws.take(0)));
        }
        while k < m
            invariant
                n == data.entries@.len(),
                data@.len() == n,
                i < n,
                m == data.entries@[i as int].words@.len(),
                ws == data.entries@[i as int].words.deep_view(),
                ws.len() == m,
                k <= m,
                out@ == entry_prefix + spec_words_block(ws.take(k as int)),
            decreases m - k,
        {
            append_slice(&mut out, "<li>".as_bytes());
            append_slice(&mut out, data.entries[i].words[k].as_str().as_bytes());
            append_slice(&mut out, "</li>\n".as_bytes());
            proof {
                lemma_words_block_step(ws, k as int);
                assert(data.entries@[i as int].words@[k as int]@ == ws[k as int]);
                assert(out@ =~= entry_prefix + spec_words_block(ws.take(k + 1)));
            }
            k = k + 1;
        }
        append_slice(&mut out, "</ul>\n".as_bytes());
        proof {
            lemma_entries_block_step(data@, i as int);
            assert(ws.take(m as int) =~= ws);
            assert(data@[i as int] == (data.entries@[i as int].key@, ws));
            assert(out@ =~= tpl.before@ + spec_entries_block(data@.take(i + 1)));
        }
        i = i + 1;
    }
    append_slice(&mut out, tpl.after.as_slice());
    proof {
        assert(data@.take(n as int) =~= data@);
        assert(out@ =~= spec_render(tpl.before@, tpl.after@, data@));
    }
    out
}

proof fn lemma_match_concat_left(a: Seq<u8>, b: Seq<u8>, n: Seq<u8>, i: int)
    requires
        is_match(a, n, i),
    ensures
        is_match(a + b, n, i),
{
    assert((a + b).subrange(i, i + n.len() as int) =~= a.subrange(i, i + n.len() as int));
}

proof fn lemma_match_concat_right(a: Seq<u8>, b: Seq<u8>, n: Seq<u8>, i: int)
    requires
        is_match(b, n, i),
    ensures
        is_match(a + b, n, a.len() + i),
{
    assert((a + b).subrange(a.len() + i, a.len() + i + n.len() as int)
        =~= b.subrange(i, i + n.len() as int));
}

proof fn lemma_contains_concat_left(a: Seq<u8>, b: Seq<u8>, n: Seq<u8>)
    requires
        contains_bytes(a, n),
    ensures
        contains_bytes(a + b, n),
{
    let i = choose|i: int| is_match(a, n, i);
    lemma_match_concat_left(a, b, n, i);
}

proof fn lemma_contains_concat_right(a: Seq<u8>, b: Seq<u8>, n: Seq<u8>)
    requires
        contains_bytes(b, n),
    ensures
        contains_bytes(a + b, n),
{
    let i = choose|i: int| is_match(b, n, i);
    lemma_match_concat_right(a, b, n, i);
}

proof fn lemma_entry_block_contains_key(e: (Seq<char>, Seq<Seq<char>>))
    ensures
        contains_bytes(spec_entry_block(e), encode_utf8(e.0)),
{
    let pre = encode_utf8("<h2>"@);
    let key = encode_utf8(e.0);
    assert(is_match(pre + key, key, pre.len() as int)) by {
        assert((pre + key).subrange(pre.len() as int, pre.len() + key.len() as int) =~= key);
    }
    lemma_match_concat_left(pre + key, encode_utf8("</h2>\n<ul>\n"@), key, pre.len() as int);
    lemma_match_concat_left(
        pre + key + encode_utf8("</h2>\n<ul>\n"@),
        spec_words_block(e.1),
        key,
        pre.len() as int,
    );
    lemma_match_concat_left(
        pre + key + encode_utf8("</h2>\n<ul>\n"@) + spec_words_block(e.1),
        encode_utf8("</ul>\n"@),
        key,
        pre.len() as int,
    );
}

proof fn lemma_entries_block_contains_key(es: Seq<(Seq<char>, Seq<Seq<char>>)>, i: int)
    requires
        0 <= i < es.len(),
    ensures
        contains_bytes(spec_entries_block(es), encode_utf8(es[i].0)),
    decreases es.len(),
{
    let key = encode_utf8(es[i].0);
    if i == es.len() - 1 {
        lemma_entry_block_contains_key(es.last());
        lemma_contains_concat_right(
            spec_entries_block(es.drop_last()),
            spec_entry_block(es.last()),
            key,
        );
    } else {
        assert(es.drop_last()[i] == es[i]);
        lemma_entries_block_contains_key(es.drop_last(), i);
        lemma_contains_concat_left(
            spec_entries_block(es.drop_last()),
            spec_entry_block(es.last()),
            key,
        );
    }
}

proof fn lemma_words_block_contains_word(ws: Seq<Seq<char>>, k: int)
    requires
        0 <= k < ws.len(),
    ensures
        contains_bytes(spec_words_block(ws), encode_utf8(ws[k])),
    decreases ws.len(),
{
    let word = encode_utf8(ws[k]);
    if k == ws.len() - 1 {
        let pre = encode_utf8("<li>"@);
        assert(is_match(pre + word, word, pre.len() as int)) by {
            assert((pre + word).subrange(pre.len() as int, pre.len() + word.len() as int)
                =~= word);
        }
        lemma_match_concat_left(pre + word, encode_utf8("</li>\n"@), word, pre.len() as int);
        lemma_contains_concat_right(
            spec_words_block(ws.drop_last()),
            spec_word_item(ws.last()),
            word,
        );
    } else {
        assert(ws.drop_last()[k] == ws[k]);
        lemma_words_block_contains_word(ws.drop_last(), k);
        lemma_contains_concat_left(
            spec_words_block(ws.drop_last()),
            spec_word_item(ws.last()),
            word,
        );
    }
}

proof fn lemma_entries_block_contains_word(es: Seq<(Seq<char>, Seq<Seq<char>>)>, i: int, k: int)
    requires
        0 <= i < es.len(),
        0 <= k < es[i].1.len(),
    ensures
        contains_bytes(spec_entries_block(es), encode_utf8(es[i].1[k])),
    decreases es.len(),
{
    let word = encode_utf8(es[i].1[k]);
    if i == es.len() - 1 {
        lemma_words_block_contains_word(es[i].1, k);
        let head = encode_utf8("<h2>"@) + encode_utf8(es[i].0) + encode_utf8("</h2>\n<ul>\n"@);
        lemma_contains_concat_right(head, spec_words_block(es[i].1), word);
        lemma_contains_concat_left(head + spec_words_block(es[i].1), encode_utf8("</ul>\n"@), word);
        assert(spec_entry_block(es.last()) == head + spec_words_block(es[i].1)
            + encode_utf8("</ul>\n"@));
        lemma_contains_concat_right(
            spec_entries_block(es.drop_last()),
            spec_entry_block(es.last()),
            word,
        );
    } else {
        assert(es.drop_last()[i] == es[i]);
        lemma_entries_block_contains_word(es.drop_last(), i, k);
        lemma_contains_concat_left(
            spec_entries_block(es.drop_last()),
            spec_entry_block(es.last()),
            word,
        );
    }
}

/// Law: however the template's surrounding text reads, the rendered page
/// contains every word of every category of the document.
pub proof fn lemma_render_contains_all_words(
    before: Seq<u8>,
    after: Seq<u8>,
    data: Seq<(Seq<char>, Seq<Seq<char>>)>,
)
    ensures
        forall|i: int, k: int| 0 <= i < data.len() && 0 <= k < data[i].1.len()
            ==> contains_bytes(
                spec_render(before, after, data),
                encode_utf8(#[trigger] data[i].1[k]),
            ),
{
    assert forall|i: int, k: int| 0 <= i < data.len() && 0 <= k < data[i].1.len()
        implies contains_bytes(spec_render(before, after, data), encode_utf8(data[i].1[k])) by {
        let word = encode_utf8(data[i].1[k]);
        lemma_entries_block_contains_word(data, i, k);
        lemma_contains_concat_right(before, spec_entries_block(data), word);
        lemma_contains_concat_left(before + spec_entries_block(data), after, word);
    }
}

/// Law: however the template's surrounding text reads, the rendered page
/// contains every key of the document.
pub proof fn lemma_render_contains_all_keys(
    before: Seq<u8>,
    after: Seq<u8>,
    data: Seq<(Seq<char>, Seq<Seq<char>>)>,
)
    ensures
        forall|i: int| 0 <= i < data.len()
            ==> contains_bytes(spec_render(before, after, data), encode_utf8((#[trigger] data[i]).0)),
{
    assert forall|i: int| 0 <= i < data.len()
        implies contains_bytes(spec_render(before, after, data), encode_utf8(data[i].0)) by {
        let key = encode_utf8(data[i].0);
        lemma_entries_block_contains_key(data, i);
        lemma_contains_concat_right(before, spec_entries_block(data), key);
        lemma_contains_concat_left(before + spec_entries_block(data), after, key);
    }
}

} // verus!
