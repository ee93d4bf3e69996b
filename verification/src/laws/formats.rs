//! Model files, downloads and the command line, by their texts.

use vstd::prelude::*;

use crate::cli::{cached_model_of, output_name_of, painted, requested, to_seven, Request};
use crate::cyb_format::{
    graph_entry, graph_section, header_text, last_sections, list_head, list_tail, Sections,
};
use crate::hf::{
    artifact_of, companions, first_ending, is_essential, is_shard, metadata_in, planned,
    ArtifactKind,
};
use crate::manifest::{double_spacing, nearest, nearest_double, size_text};
use crate::text;

verus! {

/// A file of a model as its table lists it.
pub open spec fn listed(name: Seq<char>, format: Seq<char>) -> Seq<char> {
    "[[files]]\nname = \""@ + (name + ("\"\nformat = \""@ + (format + "\"\n\n"@)))
}

/// A section of a model: its mark on a line of its own, and its text, which
/// ends with the end of a line.
pub open spec fn marked(mark: Seq<char>, body: Seq<char>) -> Seq<char> {
    if body.len() > 0 && body[body.len() - 1] == '\n' {
        mark + ("\n"@ + body)
    } else {
        mark + ("\n"@ + (body + "\n"@))
    }
}

/// The header of a model: the table of its files, where the size of the
/// weights stands last, then its sections in the same order, and the mark of
/// the weights at the end. A graph is listed between the program and the
/// tensors, and its digits stand there.
#[verifier::spinoff_prover]
#[verifier::rlimit(40)]
pub proof fn headers_list_their_sections(s: Sections, n: u64)
    ensures
        header_text(s, n) == list_head(s) + graph_entry(s) + list_tail(s, n) + graph_section(s)
            + last_sections(s),
        list_head(s) == "[cyb]\ntypes = [\"model\"]\nname = \""@ + s.name@
            + "\"\nformat_version = 2\n\n"@ + listed("card"@, "md"@) + listed("config"@, "toml"@)
            + listed("program"@, s.program_format@),
        graph_entry(s) == (if s.graph is Some {
            listed("graph"@, "hex"@)
        } else {
            Seq::empty()
        }),
        list_tail(s, n) == listed("tensors"@, "toml"@) + listed("vocab"@, "toml"@) + listed(
            "eval"@,
            "toml"@,
        ) + "[[files]]\nname = \"weights\"\nformat = \"tensors\"\nsize = "@ + text::decimal(
            n as nat,
        ) + "\n"@ + marked("~~~card"@, s.card@) + marked("~~~config"@, s.config@) + marked(
            "~~~program"@,
            s.program@,
        ),
        graph_section(s) == (match s.graph {
            Some(hex) => "~~~graph\n"@ + hex@ + "\n"@,
            None => Seq::empty(),
        }),
        last_sections(s) == marked("~~~tensors"@, s.tensors@) + marked("~~~vocab"@, s.vocab@)
            + marked("~~~eval"@, s.eval@) + "~~~weights\n"@,
{
    lemma_marked("~~~card"@, s.card@);
    lemma_marked("~~~config"@, s.config@);
    lemma_marked("~~~program"@, s.program@);
    lemma_marked("~~~tensors"@, s.tensors@);
    lemma_marked("~~~vocab"@, s.vocab@);
    lemma_marked("~~~eval"@, s.eval@);
    lemma_listed("card"@, "md"@);
    lemma_listed("config"@, "toml"@);
    lemma_listed("program"@, s.program_format@);
    lemma_listed("graph"@, "hex"@);
    lemma_listed("tensors"@, "toml"@);
    lemma_listed("vocab"@, "toml"@);
    lemma_listed("eval"@, "toml"@);
}

proof fn lemma_listed(name: Seq<char>, format: Seq<char>)
    ensures
        crate::cyb_format::entry_text(name, format) == listed(name, format),
{
    assert(crate::cyb_format::entry_text(name, format) =~= listed(name, format));
}

proof fn lemma_marked(mark: Seq<char>, body: Seq<char>)
    ensures
        crate::cyb_format::section_text(mark, body) == marked(mark, body),
{
    reveal_strlit("");
    assert(crate::cyb_format::section_text(mark, body) =~= marked(mark, body));
}

proof fn lemma_first_ending(files: Seq<Seq<char>>, suffix: Seq<char>, from: int)
    requires
        0 <= from,
    ensures
        match first_ending(files, suffix, from) {
            Some(i) => from <= i < files.len() && text::ends(files[i], suffix) && forall|j: int|
                from <= j < i ==> !text::ends(#[trigger] files[j], suffix),
            None => forall|j: int|
                from <= j < files.len() ==> !text::ends(#[trigger] files[j], suffix),
        },
    decreases files.len() - from,
{
    if from < files.len() && !text::ends(files[from], suffix) {
        lemma_first_ending(files, suffix, from + 1);
    }
}

/// What is fetched of a repository: the one file of tensors, else the index of
/// several, else the first GGUF file, else the first graph.
#[verifier::spinoff_prover]
#[verifier::rlimit(40)]
pub proof fn artifacts_are_preferred_in_order(files: Seq<Seq<char>>)
    ensures
        files.contains("model.safetensors"@) ==> artifact_of(files) == Some(
            ("model.safetensors"@, ArtifactKind::Safetensors),
        ),
        !files.contains("model.safetensors"@) && files.contains("model.safetensors.index.json"@)
            ==> artifact_of(files) == Some(
            ("model.safetensors.index.json"@, ArtifactKind::Safetensors),
        ),
        !files.contains("model.safetensors"@) && !files.contains("model.safetensors.index.json"@)
            ==> match artifact_of(files) {
            Some((f, ArtifactKind::Gguf)) => exists|i: int|
                0 <= i < files.len() && f == #[trigger] files[i] && text::ends(f, ".gguf"@)
                    && forall|j: int| 0 <= j < i ==> !text::ends(#[trigger] files[j], ".gguf"@),
            Some((f, ArtifactKind::Onnx)) => (forall|j: int|
                0 <= j < files.len() ==> !text::ends(#[trigger] files[j], ".gguf"@)) && exists|i: int|
                0 <= i < files.len() && f == #[trigger] files[i] && text::ends(f, ".onnx"@)
                    && forall|j: int| 0 <= j < i ==> !text::ends(#[trigger] files[j], ".onnx"@),
            Some((f, ArtifactKind::Safetensors)) => false,
            None => forall|j: int|
                0 <= j < files.len() ==> !text::ends(#[trigger] files[j], ".gguf"@) && !text::ends(
                    files[j],
                    ".onnx"@,
                ),
        },
{
    lemma_first_ending(files, ".gguf"@, 0);
    lemma_first_ending(files, ".onnx"@, 0);
}

/// The plan begins with the artifact, and holds every shard of an index and
/// the data of a graph.
pub proof fn companions_come_along(files: Seq<Seq<char>>, artifact: Seq<char>, f: Seq<char>)
    requires
        files.contains(f),
    ensures
        planned(files, artifact)[0] == artifact,
        text::ends(artifact, ".safetensors.index.json"@) && text::ends(f, ".safetensors"@)
            && text::holds(f, "of"@) ==> planned(files, artifact).contains(f),
        !text::ends(artifact, ".safetensors.index.json"@) && text::ends(artifact, ".onnx"@) && f
            == artifact + "_data"@ ==> planned(files, artifact).contains(f),
{
    let c = companions(files, artifact);
    if text::ends(artifact, ".safetensors.index.json"@) && is_shard(f) {
        let p = |x: Seq<char>| is_shard(x);
        files.lemma_filter_contains_rev(p, f);
        lemma_middle(artifact, c, metadata_in(files, 6), f);
    }
    if !text::ends(artifact, ".safetensors.index.json"@) && text::ends(artifact, ".onnx"@) && f
        == artifact + "_data"@ {
        assert(c[0] == f);
        lemma_middle(artifact, c, metadata_in(files, 6), f);
    }
}

proof fn lemma_middle(
    artifact: Seq<char>,
    c: Seq<Seq<char>>,
    m: Seq<Seq<char>>,
    f: Seq<char>,
)
    requires
        c.contains(f) || m.contains(f),
    ensures
        (seq![artifact] + c + m).contains(f),
{
    let all = seq![artifact] + c + m;
    if c.contains(f) {
        let i = choose|i: int| 0 <= i < c.len() && c[i] == f;
        assert(all[i + 1] == f);
    } else {
        let i = choose|i: int| 0 <= i < m.len() && m[i] == f;
        assert(all[1 + c.len() + i] == f);
    }
}

/// The files of the tokenizer and of the configuration come along where the
/// repository has them.
pub proof fn metadata_comes_along(files: Seq<Seq<char>>, artifact: Seq<char>, f: Seq<char>)
    requires
        files.contains(f),
        f == "config.json"@ || f == "tokenizer.json"@ || f == "tokenizer.model"@ || f
            == "tokenizer_config.json"@ || f == "special_tokens_map.json"@ || f
            == "generation_config.json"@,
    ensures
        planned(files, artifact).contains(f),
{
    let names = crate::hf::metadata_names();
    let k: int = if f == "config.json"@ {
        0
    } else if f == "tokenizer.json"@ {
        1
    } else if f == "tokenizer.model"@ {
        2
    } else if f == "tokenizer_config.json"@ {
        3
    } else if f == "special_tokens_map.json"@ {
        4
    } else {
        5
    };
    assert(names[k] == f);
    lemma_metadata(files, k, 6);
    lemma_middle(artifact, companions(files, artifact), metadata_in(files, 6), f);
}

proof fn lemma_metadata(files: Seq<Seq<char>>, k: int, n: int)
    requires
        0 <= k < n <= 6,
        files.contains(crate::hf::metadata_names()[k]),
    ensures
        metadata_in(files, n).contains(crate::hf::metadata_names()[k]),
    decreases n,
{
    let f = crate::hf::metadata_names()[k];
    let all = metadata_in(files, n);
    if k == n - 1 {
        assert(all.last() == f);
        assert(all[all.len() - 1] == f);
    } else {
        lemma_metadata(files, k, n - 1);
        let before = metadata_in(files, n - 1);
        let i = choose|i: int| 0 <= i < before.len() && before[i] == f;
        assert(all[i] == f);
    }
}

/// A part of a model without which it cannot be read: tensors and the data of
/// a graph.
pub proof fn tensors_are_essential(stem: Seq<char>)
    ensures
        is_essential(stem + ".safetensors"@),
        is_essential(stem + "_data"@),
        is_shard(stem + "of"@ + ".safetensors"@),
{
    assert((stem + ".safetensors"@).skip(stem.len() as int) =~= ".safetensors"@);
    assert((stem + "_data"@).skip(stem.len() as int) =~= "_data"@);
    let s = stem + "of"@ + ".safetensors"@;
    let n = stem.len() as int;
    assert(s.skip(n + "of"@.len()) =~= ".safetensors"@);
    assert(s.subrange(n, n + "of"@.len()) =~= "of"@);
    assert(text::stands_at(s, n, "of"@));
}

/// Import is the first command and run the second; nothing and the words for
/// help ask for help.
pub proof fn arguments_ask_for_commands(arg: Seq<char>)
    ensures
        requested(arg) == Request::Run(0) <==> arg == "import"@,
        requested(arg) == Request::Run(1) <==> arg == "run"@,
        requested(arg) is Help <==> arg.len() == 0 || arg == "help"@ || arg == "--help"@ || arg
            == "-h"@,
        requested(arg) is Unknown <==> arg.len() > 0 && arg != "help"@ && arg != "--help"@ && arg
            != "-h"@ && arg != "import"@ && arg != "run"@,
{
    reveal_strlit("");
    reveal_strlit("help");
    reveal_strlit("--help");
    reveal_strlit("-h");
    reveal_strlit("import");
    reveal_strlit("run");
    assert(""@.len() == 0 && "help"@.len() == 4 && "--help"@.len() == 6 && "-h"@.len() == 2);
    assert("import"@.len() == 6 && "run"@.len() == 3);
    assert("import"@[0] == 'i' && "--help"@[0] == '-');
    if arg.len() == 0 {
        assert(arg =~= ""@);
    }
}

/// Colour goes to terminals alone: the code of the colour before the text, and
/// the code that ends it behind. Names are filled up to seven places.
pub proof fn colour_is_for_terminals(code: Seq<char>, s: Seq<char>)
    ensures
        painted(false, code, s) == s,
        painted(true, code, s) == "\x1b["@ + (code + ("m"@ + (s + "\x1b[0m"@))),
        s.len() >= 7 ==> to_seven(s) == s,
        s.len() < 7 ==> to_seven(s).len() == 7 && to_seven(s).take(s.len() as int) == s,
        forall|i: int| s.len() <= i < to_seven(s).len() ==> #[trigger] to_seven(s)[i] == ' ',
{
    assert(painted(true, code, s) =~= "\x1b["@ + (code + ("m"@ + (s + "\x1b[0m"@))));
    assert(to_seven(s).take(s.len() as int) =~= s);
    if s.len() >= 7 {
        assert(to_seven(s) =~= s);
    }
}

/// A directory of the cache is named for the owner and the model.
pub proof fn cached_models_are_named(owner: Seq<char>, model: Seq<char>)
    requires
        !text::holds(owner + "--"@ + model, "models--"@),
        forall|p: int| #[trigger]
            text::stands_at(owner + "--"@ + model, p, "--"@) ==> p == owner.len(),
    ensures
        cached_model_of("models--"@ + (owner + "--"@ + model)) == Some(owner + "/"@ + model),
{
    reveal_strlit("models--");
    reveal_strlit("--");
    reveal_strlit("");
    let rest = owner + "--"@ + model;
    let d = "models--"@ + rest;
    assert(d.take(8) =~= "models--"@);
    assert(d.skip(8) =~= rest);
    text::lemma_nothing_replaced(rest, "models--"@, ""@);
    assert(text::replaced(d, "models--"@, ""@) =~= rest);
    text::lemma_replaced_once(owner, "--"@, model, "/"@);
}

/// Other directories are no models of the cache; an imported directory gives
/// its name to the result, without what marks it as imported.
pub proof fn directories_name_the_result(d: Seq<char>)
    ensures
        !text::begins(d, "models--"@) ==> cached_model_of(d) is None,
        output_name_of(d + "-import"@) == d + ".canonical"@,
        !text::ends(d, "-import"@) ==> output_name_of(d) == d + ".canonical"@,
{
    let x = d + "-import"@;
    assert(x.skip(d.len() as int) =~= "-import"@);
    assert(x.take(d.len() as int) =~= d);
}

/// Sizes below a kilobyte are given in bytes, below a megabyte in whole
/// kilobytes, and below a gigabyte in whole megabytes.
pub proof fn sizes_are_cut_to_units(n: nat, rest: nat)
    ensures
        n < 1024 ==> size_text(n) == text::decimal(n) + "B"@,
        1 <= n < 1024 && rest < 1024 ==> size_text((1024 * n + rest) as nat) == text::decimal(n)
            + "K"@,
        1 <= n < 1024 && rest < 1024 * 1024 ==> size_text((1024 * 1024 * n + rest) as nat)
            == text::decimal(n) + "M"@,
{
    if 1 <= n < 1024 && rest < 0x10_0000 {
        assert((0x10_0000 * n + rest) / 0x10_0000 == n);
    }
    if 1 <= n < 1024 && rest < 0x400 {
        assert((0x400 * n + rest) / 0x400 == n);
    }
}

/// Sizes from a gigabyte on are given to the nearest tenth.
pub proof fn large_sizes_are_rounded(bytes: nat)
    requires
        0x4000_0000 <= bytes < 0x20_0000_0000_0000,
    ensures
        exists|whole: nat, tenth: nat|
            tenth < 10 && #[trigger] size_in_tenths(whole, tenth) == size_text(bytes) && -0x4000_0000
                <= 2 * (10 * bytes - (10 * whole + tenth) * 0x4000_0000) <= 0x4000_0000,
{
    assert(double_spacing(bytes) == 1);
    assert(nearest_double(bytes) == bytes) by {
        assert(nearest(bytes, 1) == bytes);
    }
    let tenths = nearest((bytes * 10) as nat, 0x4000_0000);
    let whole = (tenths / 10) as nat;
    let tenth = (tenths % 10) as nat;
    assert(size_in_tenths(whole, tenth) =~= size_text(bytes));
    assert(10 * whole + tenth == tenths);
}

/// A number of gigabytes with one decimal.
pub open spec fn size_in_tenths(whole: nat, tenth: nat) -> Seq<char> {
    text::decimal(whole) + ("."@ + (text::decimal(tenth) + "G"@))
}

} // verus!
