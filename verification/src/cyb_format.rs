//! `.model` files: a list of sections, the sections as text, and the weights
//! as bytes at the end.

use vstd::prelude::*;

use crate::text;

verus! {

/// The sections of a model besides its weights.
#[derive(Debug, PartialEq, Eq)]
pub struct Sections<'a> {
    pub name: &'a str,
    pub card: &'a str,
    pub config: &'a str,
    pub program: &'a str,
    pub program_format: &'a str,
    /// Hexadecimal digits of a compiled graph, where there is one.
    pub graph: Option<&'a str>,
    pub tensors: &'a str,
    pub vocab: &'a str,
    pub eval: &'a str,
}

/// The list's entry for a section.
pub open spec fn entry_text(section: Seq<char>, format: Seq<char>) -> Seq<char> {
    "[[files]]\nname = \""@ + section + "\"\nformat = \""@ + format + "\"\n\n"@
}

/// A section: its marker and its body, which ends with a line break.
pub open spec fn section_text(marker: Seq<char>, body: Seq<char>) -> Seq<char> {
    marker + "\n"@ + body + if body.len() > 0 && body.last() == '\n' {
        ""@
    } else {
        "\n"@
    }
}

/// What precedes the entry of the graph.
pub open spec fn list_head(s: Sections) -> Seq<char> {
    "[cyb]\ntypes = [\"model\"]\nname = \""@ + s.name@ + "\"\nformat_version = 2\n\n"@
        + entry_text("card"@, "md"@) + entry_text("config"@, "toml"@) + entry_text(
        "program"@,
        s.program_format@,
    )
}

/// The entry of the graph, where there is one.
pub open spec fn graph_entry(s: Sections) -> Seq<char> {
    match s.graph {
        Some(_) => entry_text("graph"@, "hex"@),
        None => Seq::empty(),
    }
}

/// What follows the entry of the graph, up to the section of the graph.
pub open spec fn list_tail(s: Sections, weights_len: u64) -> Seq<char> {
    entry_text("tensors"@, "toml"@) + entry_text("vocab"@, "toml"@) + entry_text("eval"@, "toml"@)
        + "[[files]]\nname = \"weights\"\nformat = \"tensors\"\nsize = "@ + text::decimal(
        weights_len as nat,
    ) + "\n"@ + section_text("~~~card"@, s.card@) + section_text("~~~config"@, s.config@)
        + section_text("~~~program"@, s.program@)
}

/// The section of the graph, where there is one.
pub open spec fn graph_section(s: Sections) -> Seq<char> {
    match s.graph {
        Some(hex) => "~~~graph\n"@ + hex@ + "\n"@,
        None => Seq::empty(),
    }
}

/// What follows the section of the graph, up to the weights.
pub open spec fn last_sections(s: Sections) -> Seq<char> {
    section_text("~~~tensors"@, s.tensors@) + section_text("~~~vocab"@, s.vocab@) + section_text(
        "~~~eval"@,
        s.eval@,
    ) + "~~~weights\n"@
}

/// Everything up to the weights.
pub open spec fn header_text(s: Sections, weights_len: u64) -> Seq<char> {
    list_head(s) + graph_entry(s) + list_tail(s, weights_len) + graph_section(s) + last_sections(s)
}

fn entry(section: &str, format: &str) -> (s: String)
    ensures
        s@ == entry_text(section@, format@),
{
    let mut s = "[[files]]\nname = \"".to_owned();
    s.append(section);
    s.append("\"\nformat = \"");
    s.append(format);
    s.append("\"\n\n");
    s
}

fn section(marker: &str, body: &str) -> (s: String)
    ensures
        s@ == section_text(marker@, body@),
{
    let mut s = marker.to_owned();
    s.append("\n");
    s.append(body);
    let v = text::chars_of(body);
    let n: usize = v.len();
    if n > 0 && v[n - 1] == '\n' {
        s.append("");
    } else {
        s.append("\n");
    }
    s
}

/// Everything up to the weights.
pub fn write_model_header(s: &Sections, weights_len: u64) -> (out: String)
    ensures
        out@ == header_text(*s, weights_len),
{
    let mut out = "[cyb]\ntypes = [\"model\"]\nname = \"".to_owned();
    out.append(s.name);
    out.append("\"\nformat_version = 2\n\n");
    out.append(entry("card", "md").as_str());
    out.append(entry("config", "toml").as_str());
    out.append(entry("program", s.program_format).as_str());
    assert(out@ == list_head(*s));
    match s.graph {
        Some(_) => {
            out.append(entry("graph", "hex").as_str());
        },
        None => {},
    }
    assert(out@ =~= list_head(*s) + graph_entry(*s));
    let mut tail = entry("tensors", "toml");
    tail.append(entry("vocab", "toml").as_str());
    tail.append(entry("eval", "toml").as_str());
    tail.append("[[files]]\nname = \"weights\"\nformat = \"tensors\"\nsize = ");
    tail.append(text::decimal_u64(weights_len).as_str());
    tail.append("\n");
    tail.append(section("~~~card", s.card).as_str());
    tail.append(section("~~~config", s.config).as_str());
    tail.append(section("~~~program", s.program).as_str());
    assert(tail@ == list_tail(*s, weights_len));
    out.append(tail.as_str());
    let ghost so_far = out@;
    match s.graph {
        Some(hex) => {
            let mut graph = "~~~graph\n".to_owned();
            graph.append(hex);
            graph.append("\n");
            out.append(graph.as_str());
        },
        None => {},
    }
    assert(out@ =~= so_far + graph_section(*s));
    let mut last = section("~~~tensors", s.tensors);
    last.append(section("~~~vocab", s.vocab).as_str());
    last.append(section("~~~eval", s.eval).as_str());
    last.append("~~~weights\n");
    assert(last@ == last_sections(*s));
    out.append(last.as_str());
    out
}

/// The bytes of a file: the header as UTF-8, and the weights.
pub open spec fn file_bytes(s: Sections, weights: Seq<u8>) -> Seq<u8> {
    vstd::utf8::encode_utf8(header_text(s, weights.len() as u64)) + weights
}

/// The whole file.
pub fn write_model_file(s: &Sections, weights: &[u8]) -> (out: Vec<u8>)
    requires
        weights@.len() <= u64::MAX,
    ensures
        out@ == file_bytes(*s, weights@),
{
    let header = write_model_header(s, weights.len() as u64);
    let mut out: Vec<u8> = Vec::new();
    out.extend_from_slice(header.as_str().as_bytes());
    out.extend_from_slice(weights);
    assert(out@ =~= vstd::utf8::encode_utf8(header@) + weights@);
    out
}

/// The message on weights that were cut short.
pub open spec fn short_text(copied: u64, expected: u64) -> Seq<char> {
    "weights source had "@ + text::decimal(copied as nat) + " bytes, expected "@ + text::decimal(
        expected as nat,
    )
}

/// Refuses weights of another length than the list says.
pub fn write_model_file_streaming(copied: u64, weights_len: u64) -> (r: Result<(), String>)
    ensures
        if copied == weights_len {
            r is Ok
        } else {
            r matches Err(m) && m@ == short_text(copied, weights_len)
        },
{
    if copied == weights_len {
        return Ok(());
    }
    let mut m = "weights source had ".to_owned();
    m.append(text::decimal_u64(copied).as_str());
    m.append(" bytes, expected ");
    m.append(text::decimal_u64(weights_len).as_str());
    Err(m)
}

/// The weights are the last bytes of the file, as many as its list says, and
/// come right after their marker.
pub proof fn weights_end_the_file(s: Sections, weights: Seq<u8>)
    requires
        weights.len() <= u64::MAX,
    ensures
        file_bytes(s, weights).skip(file_bytes(s, weights).len() - weights.len()) == weights,
        file_bytes(s, weights).take(file_bytes(s, weights).len() - weights.len())
            == vstd::utf8::encode_utf8(header_text(s, weights.len() as u64)),
        text::ends(header_text(s, weights.len() as u64), "~~~weights\n"@),
        text::holds(
            header_text(s, weights.len() as u64),
            "name = \"weights\"\nformat = \"tensors\"\nsize = "@ + text::decimal(weights.len())
                + "\n"@,
        ),
{
    let n = weights.len() as u64;
    let file = file_bytes(s, weights);
    let header = header_text(s, n);
    let marker = "~~~weights\n"@;
    assert(file.skip(file.len() - weights.len()) =~= weights);
    assert(file.take(file.len() - weights.len()) =~= vstd::utf8::encode_utf8(header));
    assert(header.skip(header.len() - marker.len()) =~= marker);
    lemma_size_stands(
        list_head(s) + graph_entry(s),
        entry_text("tensors"@, "toml"@) + entry_text("vocab"@, "toml"@) + entry_text(
            "eval"@,
            "toml"@,
        ),
        text::decimal(weights.len()),
        section_text("~~~card"@, s.card@),
        section_text("~~~config"@, s.config@),
        section_text("~~~program"@, s.program@),
        graph_section(s),
        last_sections(s),
    );
}

proof fn lemma_size_stands(
    head: Seq<char>,
    entries: Seq<char>,
    size: Seq<char>,
    card: Seq<char>,
    config: Seq<char>,
    program: Seq<char>,
    graph: Seq<char>,
    last: Seq<char>,
)
    ensures
        text::holds(
            head + (entries + "[[files]]\nname = \"weights\"\nformat = \"tensors\"\nsize = "@ + size
                + "\n"@ + card + config + program) + graph + last,
            "name = \"weights\"\nformat = \"tensors\"\nsize = "@ + size + "\n"@,
        ),
{
    let a = "[[files]]\nname = \"weights\"\nformat = \"tensors\"\nsize = "@;
    let b = "name = \"weights\"\nformat = \"tensors\"\nsize = "@;
    reveal_strlit("[[files]]\nname = \"weights\"\nformat = \"tensors\"\nsize = ");
    reveal_strlit("name = \"weights\"\nformat = \"tensors\"\nsize = ");
    assert(a.skip(10) =~= b);
    lemma_stands(head, entries, a, size, "\n"@, card + config + program, graph + last);
    let part = a.skip(10) + size + "\n"@;
    let at = head.len() as int + entries.len() as int + 10;
    let all = head + (entries + a + size + "\n"@ + card + config + program) + graph + last;
    assert(all =~= head + (entries + a + size + "\n"@ + (card + config + program)) + (graph + last));
    assert(text::stands_at(all, at, part));
}

proof fn lemma_stands(
    head: Seq<char>,
    entries: Seq<char>,
    a: Seq<char>,
    size: Seq<char>,
    end: Seq<char>,
    body: Seq<char>,
    last: Seq<char>,
)
    requires
        a.len() >= 10,
    ensures
        text::stands_at(
            head + (entries + a + size + end + body) + last,
            head.len() as int + entries.len() as int + 10,
            a.skip(10) + size + end,
        ),
{
    let all = head + (entries + a + size + end + body) + last;
    let part = a.skip(10) + size + end;
    let at = head.len() as int + entries.len() as int + 10;
    assert(all.subrange(at, at + part.len()) =~= part);
}

/// A graph adds an entry to the list and a section to the file, and changes
/// nothing else.
pub proof fn a_graph_only_adds(with: Sections, without: Sections, hex: &str, weights_len: u64)
    requires
        with.graph == Some(hex),
        without.graph is None,
        with.name == without.name,
        with.card == without.card,
        with.config == without.config,
        with.program == without.program,
        with.program_format == without.program_format,
        with.tensors == without.tensors,
        with.vocab == without.vocab,
        with.eval == without.eval,
    ensures
        header_text(without, weights_len) == list_head(with) + list_tail(with, weights_len)
            + last_sections(with),
        header_text(with, weights_len) == list_head(with) + entry_text("graph"@, "hex"@)
            + list_tail(with, weights_len) + ("~~~graph\n"@ + hex@ + "\n"@) + last_sections(with),
{
    assert(list_head(without) == list_head(with));
    assert(list_tail(without, weights_len) == list_tail(with, weights_len));
    assert(last_sections(without) == last_sections(with));
    assert(header_text(without, weights_len) =~= list_head(with) + list_tail(with, weights_len)
        + last_sections(with));
}

} // verus!
