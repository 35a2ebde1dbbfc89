//! Markdown rendering of extract responses.
use vstd::prelude::*;
use vstd::string::StringExecFns;
use crate::api::response::{ExtractData, ExtractError, ExtractResponse};
use crate::text::{join, join_strings, sviews, trim_end, trim_end_string};

verus! {

/// The block for an extracted page: its URL as a heading, its markdown when
/// there is any, and a horizontal rule.
pub open spec fn extract_data_item(d: ExtractData) -> Seq<char> {
    "### "@ + d.url@ + "\n\n"@ + match d.markdown {
        Some(m) => m@ + "\n\n"@,
        None => seq![],
    } + "---"@
}

/// The message reported for a failed page.
pub open spec fn failure_message(e: ExtractError) -> Seq<char> {
    match e.message {
        Some(m) => m@,
        None => "Unknown error"@,
    }
}

/// The block for a page that failed.
pub open spec fn extract_error_item(e: ExtractError) -> Seq<char> {
    "### "@ + e.url@ + "\n\n**Extraction failed:** "@ + failure_message(e)
}

/// The extracted pages of a response.
pub open spec fn data_of(r: ExtractResponse) -> Seq<ExtractData> {
    match r.data {
        Some(v) => v@,
        None => seq![],
    }
}

/// The failed pages of a response.
pub open spec fn errors_of(r: ExtractResponse) -> Seq<ExtractError> {
    match r.errors {
        Some(v) => v@,
        None => seq![],
    }
}

/// The blocks of a response: extracted pages first, then failures.
pub open spec fn extract_blocks(r: ExtractResponse) -> Seq<Seq<char>> {
    Seq::new(data_of(r).len(), |i: int| extract_data_item(data_of(r)[i])) + Seq::new(
        errors_of(r).len(),
        |i: int| extract_error_item(errors_of(r)[i]),
    )
}

/// The markdown for an extract response: a heading and its blocks separated
/// by blank lines, or `No content extracted.` when it has neither pages nor
/// failures.
pub open spec fn extract_markdown(r: ExtractResponse) -> Seq<char> {
    if data_of(r).len() + errors_of(r).len() > 0 {
        trim_end("## Extracted Content\n\n"@ + join(extract_blocks(r), "\n\n"@))
    } else {
        "No content extracted."@
    }
}

/// The blocks come in the order of the response: the `i`-th extracted page,
/// then, after all pages, the `i`-th failure, each under a heading naming its
/// URL; the markdown is the heading followed by those blocks.
pub proof fn lemma_extract_blocks_in_order(r: ExtractResponse)
    ensures
        extract_blocks(r).len() == data_of(r).len() + errors_of(r).len(),
        forall|i: int|
            0 <= i < data_of(r).len() ==> #[trigger] extract_blocks(r)[i] == extract_data_item(
                data_of(r)[i],
            ),
        forall|i: int|
            0 <= i < errors_of(r).len() ==> #[trigger] extract_blocks(r)[data_of(r).len() + i]
                == extract_error_item(errors_of(r)[i]),
        forall|i: int|
            0 <= i < errors_of(r).len() ==> ("### "@ + errors_of(r)[i].url@).is_prefix_of(
                #[trigger] extract_blocks(r)[data_of(r).len() + i],
            ),
        forall|i: int|
            0 <= i < data_of(r).len() ==> ("### "@ + data_of(r)[i].url@).is_prefix_of(
                #[trigger] extract_blocks(r)[i],
            ),
        data_of(r).len() + errors_of(r).len() > 0 ==> extract_markdown(r) == trim_end(
            "## Extracted Content\n\n"@ + join(extract_blocks(r), "\n\n"@),
        ),
{
    let n = data_of(r).len();
    let b = extract_blocks(r);
    assert forall|i: int| 0 <= i < errors_of(r).len() implies ("### "@ + errors_of(r)[i].url@).is_prefix_of(
        #[trigger] b[n + i],
    ) by {
        let e = errors_of(r)[i];
        let p = "### "@ + e.url@;
        assert(b[n + i] == extract_error_item(e));
        assert(extract_error_item(e).subrange(0, p.len() as int) =~= p);
    }
    assert forall|i: int| 0 <= i < n implies ("### "@ + data_of(r)[i].url@).is_prefix_of(
        #[trigger] b[i],
    ) by {
        let d = data_of(r)[i];
        let p = "### "@ + d.url@;
        assert(b[i] == extract_data_item(d));
        assert(extract_data_item(d).subrange(0, p.len() as int) =~= p);
    }
}

fn data_item_text(d: &ExtractData) -> (s: String)
    ensures
        s@ == extract_data_item(*d),
{
    let mut s = "### ".to_owned();
    s.append(d.url.as_str());
    s.append("\n\n");
    match &d.markdown {
        Some(m) => {
            s.append(m.as_str());
            s.append("\n\n");
        },
        None => {},
    }
    s.append("---");
    assert(s@ =~= extract_data_item(*d));
    s
}

fn error_item_text(e: &ExtractError) -> (s: String)
    ensures
        s@ == extract_error_item(*e),
{
    let mut s = "### ".to_owned();
    s.append(e.url.as_str());
    s.append("\n\n**Extraction failed:** ");
    match &e.message {
        Some(m) => s.append(m.as_str()),
        None => s.append("Unknown error"),
    }
    assert(s@ =~= extract_error_item(*e));
    s
}

/// Renders an extract response as markdown: each extracted page under its
/// URL followed by a rule, then each failure with its message (or
/// `Unknown error`), or `No content extracted.` when there is nothing.
pub fn format_extract_markdown(response: &ExtractResponse) -> (r: String)
    ensures
        r@ == extract_markdown(*response),
{
    let mut blocks: Vec<String> = Vec::new();
    let ghost data = data_of(*response);
    let ghost errors = errors_of(*response);
    match &response.data {
        Some(v) => {
            let mut i: usize = 0;
            while i < v.len()
                invariant
                    0 <= i <= v.len(),
                    data == v@,
                    sviews(blocks@) == Seq::new(i as nat, |j: int| extract_data_item(data[j])),
                decreases v.len() - i,
            {
                let b = data_item_text(&v[i]);
                let ghost before = sviews(blocks@);
                let ghost bv = b@;
                blocks.push(b);
                assert(sviews(blocks@) =~= before.push(bv));
                i += 1;
                assert(sviews(blocks@) =~= Seq::new(i as nat, |j: int| extract_data_item(data[j])));
            }
        },
        None => {},
    }
    assert(sviews(blocks@) =~= Seq::new(data.len(), |j: int| extract_data_item(data[j])));
    let ghost first = sviews(blocks@);
    match &response.errors {
        Some(v) => {
            let mut i: usize = 0;
            while i < v.len()
                invariant
                    0 <= i <= v.len(),
                    errors == v@,
                    sviews(blocks@) == first + Seq::new(
                        i as nat,
                        |j: int| extract_error_item(errors[j]),
                    ),
                decreases v.len() - i,
            {
                let b = error_item_text(&v[i]);
                let ghost before = sviews(blocks@);
                let ghost bv = b@;
                blocks.push(b);
                assert(sviews(blocks@) =~= before.push(bv));
                i += 1;
                assert(sviews(blocks@) =~= first + Seq::new(
                    i as nat,
                    |j: int| extract_error_item(errors[j]),
                ));
            }
        },
        None => {},
    }
    assert(sviews(blocks@) =~= extract_blocks(*response));
    if blocks.len() == 0 {
        return "No content extracted.".to_owned();
    }
    let mut out = "## Extracted Content\n\n".to_owned();
    let body = join_strings(&blocks, "\n\n");
    out.append(body.as_str());
    trim_end_string(&out)
}

} // verus!
