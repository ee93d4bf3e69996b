//! Texts, the command line, downloads and the manifest.

use glia::cli::{bold, cached_model, dim, help, output_name, paint, request, subcommands, Request};
use glia::hf::{
    download_model, pick_artifact, sibling_is_essential, ArtifactKind, DownloadStatus,
    DownloadedModel, LocalFile,
};
use glia::manifest::{format_size, manifest, Role};
use glia::naming::canonical_encoding_for;
use glia::text::{
    begins_with, contains_text, decimal_string, decimal_u64, ends_with, fill, find_char,
    replace_text, signed_string, substring, text_eq,
};

fn names(v: &[&str]) -> Vec<String> {
    v.iter().map(|s| String::from(*s)).collect()
}

#[test]
fn texts_are_replaced() {
    assert_eq!(replace_text("a.b.c", ".", "--"), "a--b--c");
    assert_eq!(replace_text("aaa", "aa", "b"), "ba");
    assert_eq!(replace_text("", "x", "y"), "");
    assert_eq!(fill("N={N}, {N}", "{N}", 12), "N=12, 12");
    assert_eq!(glia::text::concat("\u{e9}", "x"), "\u{e9}x");
}

#[test]
fn numbers_are_written_in_decimal() {
    assert_eq!(decimal_u64(u64::MAX), u64::MAX.to_string());
    assert_eq!(decimal_string(0), "0");
    assert_eq!(signed_string(i64::MIN), i64::MIN.to_string());
    assert_eq!(signed_string(-1), "-1");
    assert_eq!(signed_string(7), "7");
}

#[test]
fn texts_are_searched() {
    assert!(text_eq("ab", "ab") && !text_eq("ab", "a"));
    assert!(begins_with("abc", "ab") && !begins_with("ab", "abc"));
    assert!(ends_with("abc", "bc") && ends_with("abc", ""));
    assert!(contains_text("abc", "b") && !contains_text("abc", "ca"));
    let v: Vec<char> = "a.b.c".chars().collect();
    assert_eq!(find_char(&v, '.', 2), Some(3));
    assert_eq!(find_char(&v, 'x', 0), None);
    assert_eq!(substring(&v, 2, 5), "b.c");
}

#[test]
fn commands_are_recognised() {
    let subs = subcommands();
    assert_eq!((subs[0].name, subs[0].binary), ("import", "mi"));
    assert_eq!((subs[1].name, subs[1].binary), ("run", "mr"));
    assert_eq!(request(""), Request::Help);
    assert_eq!(request("-h"), Request::Help);
    assert_eq!(request("import"), Request::Run(0));
    assert_eq!(request("run"), Request::Run(1));
    assert_eq!(request("walk"), Request::Unknown);
}

#[test]
fn colours_need_a_terminal() {
    assert_eq!(paint(true, "37", "x"), "\u{1b}[37mx\u{1b}[0m");
    assert_eq!(dim(false, "x"), "x");
    assert_eq!(bold(true, "x"), "\u{1b}[1mx\u{1b}[0m");
    let plain = help(false);
    assert!(plain.starts_with("usage: glia <command> [args\u{2026}]\n"));
    assert!(plain.contains("import"));
    assert!(!plain.contains('\u{1b}'));
    assert!(help(true).contains("the model layer"));
}

#[test]
fn cache_directories_name_their_model() {
    assert_eq!(cached_model("models--Qwen--Qwen3-0.6B"), Some(String::from("Qwen/Qwen3-0.6B")));
    assert_eq!(cached_model("datasets--x"), None);
    assert_eq!(output_name("tiny"), "tiny.canonical");
    assert_eq!(output_name("tiny-import"), "tiny.canonical");
}

#[test]
fn artifacts_are_picked_in_order() {
    let pick = |v: &[&str]| pick_artifact(&names(v));
    let st = ArtifactKind::Safetensors;
    assert_eq!(
        pick(&["m.gguf", "model.safetensors.index.json", "model.safetensors"]),
        Some((String::from("model.safetensors"), st))
    );
    assert_eq!(
        pick(&["m.gguf", "model.safetensors.index.json"]),
        Some((String::from("model.safetensors.index.json"), st))
    );
    assert_eq!(
        pick(&["a.onnx", "b.gguf", "c.gguf"]),
        Some((String::from("b.gguf"), ArtifactKind::Gguf))
    );
    assert_eq!(pick(&["a.onnx"]), Some((String::from("a.onnx"), ArtifactKind::Onnx)));
    assert_eq!(pick(&["readme.md"]), None);
}

#[test]
fn downloads_are_planned() {
    let files = names(&[
        "tokenizer.json",
        "model-00001-of-00002.safetensors",
        "model-00002-of-00002.safetensors",
        "model.safetensors.index.json",
        "config.json",
        "readme.md",
    ]);
    let p = download_model(&files).unwrap();
    assert_eq!(
        p.files,
        names(&[
            "model.safetensors.index.json",
            "model-00001-of-00002.safetensors",
            "model-00002-of-00002.safetensors",
            "config.json",
            "tokenizer.json",
        ])
    );
    let onnx = download_model(&names(&["m.onnx", "m.onnx_data"])).unwrap();
    assert_eq!(onnx.files, names(&["m.onnx", "m.onnx_data"]));
    assert!(download_model(&names(&["x"])).is_none());
    assert!(sibling_is_essential("a.safetensors") && sibling_is_essential("m.onnx_data"));
    assert!(!sibling_is_essential("config.json"));
}

#[test]
fn progress_is_counted() {
    let mut s = DownloadStatus::new();
    s.init(10, "a");
    s.update(3);
    s.update(4);
    s.finish();
    s.init(20, "b");
    assert_eq!(s.snapshot(), (0, 20, 1, 0, String::from("b")));
    s.update(u64::MAX);
    s.update(2);
    assert_eq!(s.snapshot().0, 1);
}

#[test]
fn a_snapshot_is_where_the_artifact_is() {
    let file = |dir: Option<&str>| LocalFile {
        dir: dir.map(String::from),
        name: String::from("m.gguf"),
    };
    let at = |dir: Option<&str>| DownloadedModel {
        artifact: file(dir),
        kind: ArtifactKind::Gguf,
        siblings: vec![],
    };
    assert_eq!(at(Some("/x")).snapshot_dir(), Some("/x"));
    assert_eq!(at(None).snapshot_dir(), None);
}

#[test]
fn sizes_are_rounded_for_people() {
    assert_eq!(format_size(12), "12B");
    assert_eq!(format_size(5 * 1024 + 1), "5K");
    assert_eq!(format_size(3 * 1024 * 1024), "3M");
    assert_eq!(format_size(1610612736), "1.5G");
    for n in [0x4000_0000u64, 1 << 31, 1234567890123, u64::MAX, (1 << 53) + 1] {
        assert_eq!(format_size(n), format!("{:.1}G", n as f64 / 1_073_741_824.0));
    }
}

#[test]
fn the_manifest_has_its_models() {
    let m = manifest();
    assert!(m.len() > 1);
    assert_eq!(m.iter().filter(|s| s.role == Role::Router).count(), 1);
    assert_eq!(Role::Router.label(), "router");
    assert_eq!(Role::Specialist.label(), "specialist");
    assert_eq!(Role::General.label(), "general");
}

#[test]
fn encodings_follow_the_kind_of_tensor() {
    assert_eq!(canonical_encoding_for("model.norm.weight"), "u32");
    assert_eq!(canonical_encoding_for("model.layers.0.self_attn.q_proj.bias"), "u32");
    assert_eq!(canonical_encoding_for("model.layers.0.self_attn.q_proj.weight"), "q8");
}
