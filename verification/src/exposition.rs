//! The pull-based text exposition format: how a metrics snapshot is
//! serialized for a scrape, and the scrape response itself.
use vstd::prelude::*;
use vstd::string::StrSliceExecFns;
use vstd::string::StringExecFns;
use crate::http::HttpResponse;
use crate::metrics::MetricsRegistry;
use crate::metrics::MetricsSnapshot;
use crate::metrics::SeriesModel;
use crate::metrics::counter_value;
use crate::metrics::has_series;
use crate::metrics::index_of;
use crate::metrics::lemma_index_of_props;
use crate::text::dec_spec;
use crate::text::u64_to_dec;

verus! {

/// Whether a character may stand in an exposition metric name.
pub open spec fn name_char(c: char) -> bool {
    ('a' as u32 <= c as u32 && c as u32 <= 'z' as u32) || ('A' as u32 <= c as u32 && c as u32
        <= 'Z' as u32) || ('0' as u32 <= c as u32 && c as u32 <= '9' as u32) || c == '_' || c == ':'
}

/// A metric name made fit for the exposition format: every character that
/// may not stand in a name becomes an underscore.
pub open spec fn sanitize_char(c: char) -> char {
    if name_char(c) {
        c
    } else {
        '_'
    }
}

pub open spec fn sanitize_seq(s: Seq<char>) -> Seq<char>
    decreases s.len(),
{
    if s.len() == 0 {
        Seq::empty()
    } else {
        sanitize_seq(s.drop_last()).push(sanitize_char(s.last()))
    }
}

/// How one character of a help text is written: backslash and newline are
/// escaped, everything else stands for itself.
pub open spec fn help_escape_char(c: char) -> Seq<char> {
    if c == '\\' {
        seq!['\\', '\\']
    } else if c == '\n' {
        seq!['\\', 'n']
    } else {
        seq![c]
    }
}

pub open spec fn help_escape_seq(s: Seq<char>) -> Seq<char>
    decreases s.len(),
{
    if s.len() == 0 {
        Seq::empty()
    } else {
        help_escape_seq(s.drop_last()) + help_escape_char(s.last())
    }
}

/// The `# HELP` line of one family: its name and description.
pub open spec fn help_line(f: SeriesModel) -> Seq<char> {
    "# HELP "@ + sanitize_seq(f.name) + " "@ + help_escape_seq(f.description) + "\n"@
}

/// The `# TYPE` line of one family; every instrument here is a counter.
pub open spec fn type_line(f: SeriesModel) -> Seq<char> {
    "# TYPE "@ + sanitize_seq(f.name) + " counter\n"@
}

/// The sample line of one family: its name and current value.
pub open spec fn sample_line(f: SeriesModel) -> Seq<char> {
    sanitize_seq(f.name) + " "@ + dec_spec(f.value as nat) + "\n"@
}

/// The three lines a family contributes to a scrape body.
pub open spec fn family_text(f: SeriesModel) -> Seq<char> {
    help_line(f) + type_line(f) + sample_line(f)
}

/// The whole scrape body: each family's text, in registration order.
pub open spec fn exposition_text(s: Seq<SeriesModel>) -> Seq<char>
    decreases s.len(),
{
    if s.len() == 0 {
        Seq::empty()
    } else {
        exposition_text(s.drop_last()) + family_text(s.last())
    }
}

/// `needle` occurs in `hay` starting at position `k`.
pub open spec fn contains_at(hay: Seq<char>, k: int, needle: Seq<char>) -> bool {
    0 <= k && k + needle.len() <= hay.len() && hay.subrange(k, k + needle.len()) == needle
}

/// `needle` occurs somewhere in `hay`.
pub open spec fn contains_seq(hay: Seq<char>, needle: Seq<char>) -> bool {
    exists|k: int| contains_at(hay, k, needle)
}

proof fn lemma_contains_prefix(a: Seq<char>, b: Seq<char>, needle: Seq<char>)
    requires
        contains_seq(a, needle),
    ensures
        contains_seq(a + b, needle),
{
    let k = choose|k: int| contains_at(a, k, needle);
    assert((a + b).subrange(k, k + needle.len() as int) =~= a.subrange(k, k + needle.len() as int));
    assert(contains_at(a + b, k, needle));
}

proof fn lemma_contains_suffix(a: Seq<char>, b: Seq<char>, needle: Seq<char>)
    requires
        contains_seq(b, needle),
    ensures
        contains_seq(a + b, needle),
{
    let k = choose|k: int| contains_at(b, k, needle);
    assert((a + b).subrange(a.len() + k, a.len() + k + needle.len() as int) =~= b.subrange(
        k,
        k + needle.len() as int,
    ));
    assert(contains_at(a + b, a.len() + k, needle));
}

/// Law: the scrape body contains the sample line of every series in the
/// snapshot — no registered counter is missing from a scrape.
pub proof fn lemma_exposition_contains_sample(s: Seq<SeriesModel>, i: int)
    requires
        0 <= i < s.len(),
    ensures
        contains_seq(exposition_text(s), sample_line(s[i])),
    decreases s.len(),
{
    let t = s.drop_last();
    let f = s.last();
    if i == s.len() - 1 {
        let front = help_line(f) + type_line(f);
        assert(family_text(f).subrange(front.len() as int, family_text(f).len() as int)
            =~= sample_line(f));
        assert(contains_at(family_text(f), front.len() as int, sample_line(f)));
        lemma_contains_suffix(exposition_text(t), family_text(f), sample_line(f));
    } else {
        lemma_exposition_contains_sample(t, i);
        assert(t[i] == s[i]);
        lemma_contains_prefix(exposition_text(t), family_text(f), sample_line(s[i]));
    }
}

/// Law: a scrape of a registry that holds a counter named `name` shows a
/// sample line carrying that counter's true current value.
pub proof fn lemma_scrape_shows_counter(s: Seq<SeriesModel>, name: Seq<char>)
    requires
        has_series(s, name),
    ensures
        contains_seq(
            exposition_text(s),
            sanitize_seq(name) + " "@ + dec_spec(counter_value(s, name) as nat) + "\n"@,
        ),
{
    lemma_index_of_props(s, name);
    lemma_exposition_contains_sample(s, index_of(s, name));
}

fn push_sanitized(out: &mut String, name: &str)
    ensures
        final(out)@ == old(out)@ + sanitize_seq(name@),
{
    let n = name.unicode_len();
    let mut i: usize = 0;
    while i < n
        invariant
            i <= n,
            n == name@.len(),
            out@ == old(out)@ + sanitize_seq(name@.subrange(0, i as int)),
        decreases n - i,
    {
        let c = name.get_char(i);
        let keep = ('a' as u32 <= c as u32 && c as u32 <= 'z' as u32) || ('A' as u32 <= c as u32
            && c as u32 <= 'Z' as u32) || ('0' as u32 <= c as u32 && c as u32 <= '9' as u32) || c
            == '_' || c == ':';
        if keep {
            out.push(c);
        } else {
            out.push('_');
        }
        proof {
            assert(name@.subrange(0, i as int + 1).drop_last() =~= name@.subrange(0, i as int));
            assert(name@.subrange(0, i as int + 1).last() == name@[i as int]);
        }
        i = i + 1;
    }
    proof {
        assert(name@.subrange(0, n as int) =~= name@);
    }
}

fn push_help_escaped(out: &mut String, description: &str)
    ensures
        final(out)@ == old(out)@ + help_escape_seq(description@),
{
    let n = description.unicode_len();
    let mut i: usize = 0;
    while i < n
        invariant
            i <= n,
            n == description@.len(),
            out@ == old(out)@ + help_escape_seq(description@.subrange(0, i as int)),
        decreases n - i,
    {
        let c = description.get_char(i);
        if c == '\\' {
            out.push('\\');
            out.push('\\');
        } else if c == '\n' {
            out.push('\\');
            out.push('n');
        } else {
            out.push(c);
        }
        proof {
            assert(description@.subrange(0, i as int + 1).drop_last() =~= description@.subrange(
                0,
                i as int,
            ));
            assert(description@.subrange(0, i as int + 1).last() == description@[i as int]);
            assert(out@ =~= old(out)@ + help_escape_seq(description@.subrange(0, i as int + 1)));
        }
        i = i + 1;
    }
    proof {
        assert(description@.subrange(0, n as int) =~= description@);
    }
}

/// Serializes a snapshot in the text exposition format: for every family
/// a `# HELP` line, a `# TYPE` line, and its sample line.
pub fn encode_text(snap: &MetricsSnapshot) -> (s: String)
    ensures
        s@ == exposition_text(snap@),
{
    let n = snap.families.len();
    let mut out = String::new();
    let mut i: usize = 0;
    while i < n
        invariant
            i <= n,
            n == snap.families@.len(),
            out@ == exposition_text(snap@.subrange(0, i as int)),
        decreases n - i,
    {
        out.append("# HELP ");
        push_sanitized(&mut out, snap.families[i].name.as_str());
        out.append(" ");
        push_help_escaped(&mut out, snap.families[i].description.as_str());
        out.append("\n");
        out.append("# TYPE ");
        push_sanitized(&mut out, snap.families[i].name.as_str());
        out.append(" counter\n");
        push_sanitized(&mut out, snap.families[i].name.as_str());
        out.append(" ");
        let v = u64_to_dec(snap.families[i].value);
        out.append(v.as_str());
        out.append("\n");
        proof {
            assert(snap@.subrange(0, i as int + 1).drop_last() =~= snap@.subrange(0, i as int));
            assert(snap@.subrange(0, i as int + 1).last() == snap@[i as int]);
            assert(out@ =~= exposition_text(snap@.subrange(0, i as int + 1)));
        }
        i = i + 1;
    }
    proof {
        assert(snap@.subrange(0, n as int) =~= snap@);
    }
    out
}

/// Builds the response for one scrape request, whatever its path or
/// method: status 200, the exposition content type, and the serialized
/// point-in-time snapshot of the whole registry.
pub fn render_scrape_response(registry: &MetricsRegistry) -> (r: HttpResponse)
    ensures
        r.status == 200,
        r.content_type@ == "text/plain; version=0.0.4"@,
        r.body@ == exposition_text(registry@),
{
    let snap = registry.gather();
    let body = encode_text(&snap);
    HttpResponse { status: 200, content_type: "text/plain; version=0.0.4".to_owned(), body }
}

} // verus!
