//! Tensor names: from the names of GGUF files to canonical names, and the
//! encoding of each canonical tensor.

use vstd::prelude::*;

use crate::text;

verus! {

/// The canonical encoding of a tensor: fixed-point words for norms and
/// biases, 8-bit blocks for everything else.
pub open spec fn encoding_for(name: Seq<char>) -> Seq<char> {
    if text::holds(name, "norm"@) || text::ends(name, ".bias"@) {
        "u32"@
    } else {
        "q8"@
    }
}

/// The canonical encoding of a tensor, by its canonical name.
///
/// Tensors in 8-bit blocks hold a multiple of 32 elements; the caller sees to
/// that.
pub fn canonical_encoding_for(canonical_name: &str) -> (encoding: &'static str)
    ensures
        encoding@ == encoding_for(canonical_name@),
{
    if text::contains_text(canonical_name, "norm") {
        return "u32";
    }
    if text::ends_with(canonical_name, ".bias") {
        return "u32";
    }
    "q8"
}

/// The canonical name of a tensor of a layer, by the part after the layer's
/// number. A part that is not known is kept.
pub open spec fn layer_part(part: Seq<char>) -> Seq<char> {
    if part == "attn_norm.weight"@ {
        "input_layernorm.weight"@
    } else if part == "attn_q.weight"@ {
        "self_attn.q_proj.weight"@
    } else if part == "attn_k.weight"@ {
        "self_attn.k_proj.weight"@
    } else if part == "attn_v.weight"@ {
        "self_attn.v_proj.weight"@
    } else if part == "attn_output.weight"@ {
        "self_attn.o_proj.weight"@
    } else if part == "attn_q.bias"@ {
        "self_attn.q_proj.bias"@
    } else if part == "attn_k.bias"@ {
        "self_attn.k_proj.bias"@
    } else if part == "attn_v.bias"@ {
        "self_attn.v_proj.bias"@
    } else if part == "attn_q_norm.weight"@ {
        "self_attn.q_norm.weight"@
    } else if part == "attn_k_norm.weight"@ {
        "self_attn.k_norm.weight"@
    } else if part == "ffn_norm.weight"@ {
        "post_attention_layernorm.weight"@
    } else if part == "ffn_gate.weight"@ {
        "mlp.gate_proj.weight"@
    } else if part == "ffn_up.weight"@ {
        "mlp.up_proj.weight"@
    } else if part == "ffn_down.weight"@ {
        "mlp.down_proj.weight"@
    } else {
        part
    }
}

/// The canonical name of a GGUF tensor. Names of layers are
/// `blk.<number>.<part>`; a name that is not known is kept.
pub open spec fn canonical_name(name: Seq<char>) -> Seq<char> {
    if name == "token_embd.weight"@ {
        "model.embed_tokens.weight"@
    } else if name == "output_norm.weight"@ {
        "model.norm.weight"@
    } else if name == "output.weight"@ {
        "lm_head.weight"@
    } else if text::begins(name, "blk."@) {
        match text::first_char(name, '.', 4) {
            Some(dot) => "model.layers."@ + name.subrange(4, dot) + "."@ + layer_part(
                name.skip(dot + 1),
            ),
            None => name,
        }
    } else {
        name
    }
}

fn map_part(part: String) -> (mapped: String)
    ensures
        mapped@ == layer_part(part@),
{
    let p = part.as_str();
    if text::text_eq(p, "attn_norm.weight") {
        "input_layernorm.weight".to_owned()
    } else if text::text_eq(p, "attn_q.weight") {
        "self_attn.q_proj.weight".to_owned()
    } else if text::text_eq(p, "attn_k.weight") {
        "self_attn.k_proj.weight".to_owned()
    } else if text::text_eq(p, "attn_v.weight") {
        "self_attn.v_proj.weight".to_owned()
    } else if text::text_eq(p, "attn_output.weight") {
        "self_attn.o_proj.weight".to_owned()
    } else if text::text_eq(p, "attn_q.bias") {
        "self_attn.q_proj.bias".to_owned()
    } else if text::text_eq(p, "attn_k.bias") {
        "self_attn.k_proj.bias".to_owned()
    } else if text::text_eq(p, "attn_v.bias") {
        "self_attn.v_proj.bias".to_owned()
    } else if text::text_eq(p, "attn_q_norm.weight") {
        "self_attn.q_norm.weight".to_owned()
    } else if text::text_eq(p, "attn_k_norm.weight") {
        "self_attn.k_norm.weight".to_owned()
    } else if text::text_eq(p, "ffn_norm.weight") {
        "post_attention_layernorm.weight".to_owned()
    } else if text::text_eq(p, "ffn_gate.weight") {
        "mlp.gate_proj.weight".to_owned()
    } else if text::text_eq(p, "ffn_up.weight") {
        "mlp.up_proj.weight".to_owned()
    } else if text::text_eq(p, "ffn_down.weight") {
        "mlp.down_proj.weight".to_owned()
    } else {
        part
    }
}

/// The canonical name of a GGUF tensor.
pub fn gguf_to_hf(name: &str) -> (canonical: String)
    ensures
        canonical@ == canonical_name(name@),
{
    if text::text_eq(name, "token_embd.weight") {
        return "model.embed_tokens.weight".to_owned();
    }
    if text::text_eq(name, "output_norm.weight") {
        return "model.norm.weight".to_owned();
    }
    if text::text_eq(name, "output.weight") {
        return "lm_head.weight".to_owned();
    }
    if text::begins_with(name, "blk.") {
        proof {
            reveal_strlit("blk.");
        }
        let v = text::chars_of(name);
        match text::find_char(&v, '.', 4) {
            Some(dot) => {
                let number = text::substring(&v, 4, dot);
                let part = text::substring(&v, dot + 1, v.len());
                assert(part@ =~= name@.skip(dot + 1));
                let mapped = map_part(part);
                let mut s = "model.layers.".to_owned();
                s.append(number.as_str());
                s.append(".");
                s.append(mapped.as_str());
                return s;
            },
            None => {},
        }
    }
    name.to_owned()
}

/// Naming is stable: a name that was made canonical stays as it is.
pub proof fn canonical_name_is_stable(name: Seq<char>)
    ensures
        canonical_name(canonical_name(name)) == canonical_name(name),
{
    reveal_strlit("token_embd.weight");
    reveal_strlit("output_norm.weight");
    reveal_strlit("output.weight");
    reveal_strlit("blk.");
    reveal_strlit("model.embed_tokens.weight");
    reveal_strlit("model.norm.weight");
    reveal_strlit("lm_head.weight");
    reveal_strlit("model.layers.");
    let c = canonical_name(name);
    if c != name {
        assert(c[0] == 'm' || c[0] == 'l');
        assert("blk."@[0] == 'b');
        if text::begins(c, "blk."@) {
            assert(c.take(4)[0] == 'b');
        }
    }
}

} // verus!
