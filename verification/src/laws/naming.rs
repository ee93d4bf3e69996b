//! Tensor names: what every known name becomes, written out.

use vstd::prelude::*;

use crate::naming::canonical_name;
use crate::naming::encoding_for;
use crate::naming::layer_part;
use crate::text;

verus! {

/// A text without dots, as the number of a layer is.
pub open spec fn undotted(n: Seq<char>) -> bool {
    forall|i: int| 0 <= i < n.len() ==> #[trigger] n[i] != '.'
}

proof fn lemma_dot_is_found(name: Seq<char>, from: int, dot: int)
    requires
        0 <= from <= dot < name.len(),
        name[dot] == '.',
        forall|i: int| from <= i < dot ==> #[trigger] name[i] != '.',
    ensures
        text::first_char(name, '.', from) == Some(dot),
    decreases dot - from,
{
    if from < dot {
        assert(name[from] != '.');
        lemma_dot_is_found(name, from + 1, dot);
    }
}

proof fn lemma_layer_name(n: Seq<char>, dotted: Seq<char>, part: Seq<char>)
    requires
        undotted(n),
        dotted.len() > 0,
        dotted[0] == '.',
        dotted.skip(1) == part,
    ensures
        canonical_name("blk."@ + n + dotted) == "model.layers."@ + n + "."@ + layer_part(part),
{
    reveal_strlit("blk.");
    reveal_strlit("token_embd.weight");
    reveal_strlit("output_norm.weight");
    reveal_strlit("output.weight");
    let name = "blk."@ + n + dotted;
    let dot = 4 + n.len() as int;
    assert(name[0] == 'b');
    assert(name.take(4) =~= "blk."@);
    assert(name[dot] == dotted[0]);
    assert forall|i: int| 4 <= i < dot implies #[trigger] name[i] != '.' by {
        assert(name[i] == n[i - 4]);
    }
    lemma_dot_is_found(name, 4, dot);
    assert(name.subrange(4, dot) =~= n);
    assert(name.skip(dot + 1) =~= dotted.skip(1));
}

proof fn lemma_joined(n: Seq<char>, mapped: Seq<char>, dotted: Seq<char>)
    requires
        dotted == "."@ + mapped,
    ensures
        "model.layers."@ + n + "."@ + mapped == "model.layers."@ + n + dotted,
{
    assert("model.layers."@ + n + "."@ + mapped =~= "model.layers."@ + n + dotted);
}

/// Of any layer, the weights of the query, the key, the value and the output
/// of the attention are those of the projections of the same roles.
#[verifier::spinoff_prover]
#[verifier::rlimit(40)]
pub proof fn attention_weights_keep_their_roles(n: Seq<char>)
    requires
        undotted(n),
    ensures
        canonical_name("blk."@ + n + ".attn_q.weight"@) == "model.layers."@ + n
            + ".self_attn.q_proj.weight"@,
        canonical_name("blk."@ + n + ".attn_k.weight"@) == "model.layers."@ + n
            + ".self_attn.k_proj.weight"@,
        canonical_name("blk."@ + n + ".attn_v.weight"@) == "model.layers."@ + n
            + ".self_attn.v_proj.weight"@,
        canonical_name("blk."@ + n + ".attn_output.weight"@) == "model.layers."@ + n
            + ".self_attn.o_proj.weight"@,
{
    reveal_strlit(".");
    reveal_strlit("attn_norm.weight");
    reveal_strlit("attn_q.weight");
    reveal_strlit("attn_k.weight");
    reveal_strlit("attn_v.weight");
    reveal_strlit("attn_output.weight");
    reveal_strlit(".attn_q.weight");
    reveal_strlit("self_attn.q_proj.weight");
    reveal_strlit(".self_attn.q_proj.weight");
    reveal_strlit(".attn_k.weight");
    reveal_strlit("self_attn.k_proj.weight");
    reveal_strlit(".self_attn.k_proj.weight");
    reveal_strlit(".attn_v.weight");
    reveal_strlit("self_attn.v_proj.weight");
    reveal_strlit(".self_attn.v_proj.weight");
    reveal_strlit(".attn_output.weight");
    reveal_strlit("self_attn.o_proj.weight");
    reveal_strlit(".self_attn.o_proj.weight");
    assert("attn_q.weight"@.len() != "attn_norm.weight"@.len());
    assert("attn_k.weight"@.len() != "attn_norm.weight"@.len());
    assert("attn_k.weight"@[5] != "attn_q.weight"@[5]);
    assert("attn_v.weight"@.len() != "attn_norm.weight"@.len());
    assert("attn_v.weight"@[5] != "attn_q.weight"@[5]);
    assert("attn_v.weight"@[5] != "attn_k.weight"@[5]);
    assert("attn_output.weight"@.len() != "attn_norm.weight"@.len());
    assert("attn_output.weight"@.len() != "attn_q.weight"@.len());
    assert("attn_output.weight"@.len() != "attn_k.weight"@.len());
    assert("attn_output.weight"@.len() != "attn_v.weight"@.len());
    assert(".attn_q.weight"@.skip(1) =~= "attn_q.weight"@);
    lemma_layer_name(n, ".attn_q.weight"@, "attn_q.weight"@);
    assert(".self_attn.q_proj.weight"@ =~= "."@ + "self_attn.q_proj.weight"@);
    lemma_joined(n, "self_attn.q_proj.weight"@, ".self_attn.q_proj.weight"@);
    assert(".attn_k.weight"@.skip(1) =~= "attn_k.weight"@);
    lemma_layer_name(n, ".attn_k.weight"@, "attn_k.weight"@);
    assert(".self_attn.k_proj.weight"@ =~= "."@ + "self_attn.k_proj.weight"@);
    lemma_joined(n, "self_attn.k_proj.weight"@, ".self_attn.k_proj.weight"@);
    assert(".attn_v.weight"@.skip(1) =~= "attn_v.weight"@);
    lemma_layer_name(n, ".attn_v.weight"@, "attn_v.weight"@);
    assert(".self_attn.v_proj.weight"@ =~= "."@ + "self_attn.v_proj.weight"@);
    lemma_joined(n, "self_attn.v_proj.weight"@, ".self_attn.v_proj.weight"@);
    assert(".attn_output.weight"@.skip(1) =~= "attn_output.weight"@);
    lemma_layer_name(n, ".attn_output.weight"@, "attn_output.weight"@);
    assert(".self_attn.o_proj.weight"@ =~= "."@ + "self_attn.o_proj.weight"@);
    lemma_joined(n, "self_attn.o_proj.weight"@, ".self_attn.o_proj.weight"@);
}

/// Of any layer, the biases of the query, the key and the value are those of
/// the projections of the same roles.
#[verifier::spinoff_prover]
#[verifier::rlimit(40)]
pub proof fn attention_biases_keep_their_roles(n: Seq<char>)
    requires
        undotted(n),
    ensures
        canonical_name("blk."@ + n + ".attn_q.bias"@) == "model.layers."@ + n
            + ".self_attn.q_proj.bias"@,
        canonical_name("blk."@ + n + ".attn_k.bias"@) == "model.layers."@ + n
            + ".self_attn.k_proj.bias"@,
        canonical_name("blk."@ + n + ".attn_v.bias"@) == "model.layers."@ + n
            + ".self_attn.v_proj.bias"@,
{
    reveal_strlit(".");
    reveal_strlit("attn_norm.weight");
    reveal_strlit("attn_q.weight");
    reveal_strlit("attn_k.weight");
    reveal_strlit("attn_v.weight");
    reveal_strlit("attn_output.weight");
    reveal_strlit("attn_q.bias");
    reveal_strlit("attn_k.bias");
    reveal_strlit("attn_v.bias");
    reveal_strlit(".attn_q.bias");
    reveal_strlit("self_attn.q_proj.bias");
    reveal_strlit(".self_attn.q_proj.bias");
    reveal_strlit(".attn_k.bias");
    reveal_strlit("self_attn.k_proj.bias");
    reveal_strlit(".self_attn.k_proj.bias");
    reveal_strlit(".attn_v.bias");
    reveal_strlit("self_attn.v_proj.bias");
    reveal_strlit(".self_attn.v_proj.bias");
    assert("attn_q.bias"@.len() != "attn_norm.weight"@.len());
    assert("attn_q.bias"@.len() != "attn_q.weight"@.len());
    assert("attn_q.bias"@.len() != "attn_k.weight"@.len());
    assert("attn_q.bias"@.len() != "attn_v.weight"@.len());
    assert("attn_q.bias"@.len() != "attn_output.weight"@.len());
    assert("attn_k.bias"@.len() != "attn_norm.weight"@.len());
    assert("attn_k.bias"@.len() != "attn_q.weight"@.len());
    assert("attn_k.bias"@.len() != "attn_k.weight"@.len());
    assert("attn_k.bias"@.len() != "attn_v.weight"@.len());
    assert("attn_k.bias"@.len() != "attn_output.weight"@.len());
    assert("attn_k.bias"@[5] != "attn_q.bias"@[5]);
    assert("attn_v.bias"@.len() != "attn_norm.weight"@.len());
    assert("attn_v.bias"@.len() != "attn_q.weight"@.len());
    assert("attn_v.bias"@.len() != "attn_k.weight"@.len());
    assert("attn_v.bias"@.len() != "attn_v.weight"@.len());
    assert("attn_v.bias"@.len() != "attn_output.weight"@.len());
    assert("attn_v.bias"@[5] != "attn_q.bias"@[5]);
    assert("attn_v.bias"@[5] != "attn_k.bias"@[5]);
    assert(".attn_q.bias"@.skip(1) =~= "attn_q.bias"@);
    lemma_layer_name(n, ".attn_q.bias"@, "attn_q.bias"@);
    assert(".self_attn.q_proj.bias"@ =~= "."@ + "self_attn.q_proj.bias"@);
    lemma_joined(n, "self_attn.q_proj.bias"@, ".self_attn.q_proj.bias"@);
    assert(".attn_k.bias"@.skip(1) =~= "attn_k.bias"@);
    lemma_layer_name(n, ".attn_k.bias"@, "attn_k.bias"@);
    assert(".self_attn.k_proj.bias"@ =~= "."@ + "self_attn.k_proj.bias"@);
    lemma_joined(n, "self_attn.k_proj.bias"@, ".self_attn.k_proj.bias"@);
    assert(".attn_v.bias"@.skip(1) =~= "attn_v.bias"@);
    lemma_layer_name(n, ".attn_v.bias"@, "attn_v.bias"@);
    assert(".self_attn.v_proj.bias"@ =~= "."@ + "self_attn.v_proj.bias"@);
    lemma_joined(n, "self_attn.v_proj.bias"@, ".self_attn.v_proj.bias"@);
}

/// Of any layer, the norm before the attention is the input norm, the norm
/// before the feed-forward part follows the attention, and the query and the
/// key have norms of their own.
#[verifier::spinoff_prover]
#[verifier::rlimit(40)]
pub proof fn norms_keep_their_places(n: Seq<char>)
    requires
        undotted(n),
    ensures
        canonical_name("blk."@ + n + ".attn_norm.weight"@) == "model.layers."@ + n
            + ".input_layernorm.weight"@,
        canonical_name("blk."@ + n + ".ffn_norm.weight"@) == "model.layers."@ + n
            + ".post_attention_layernorm.weight"@,
        canonical_name("blk."@ + n + ".attn_q_norm.weight"@) == "model.layers."@ + n
            + ".self_attn.q_norm.weight"@,
        canonical_name("blk."@ + n + ".attn_k_norm.weight"@) == "model.layers."@ + n
            + ".self_attn.k_norm.weight"@,
{
    reveal_strlit(".");
    reveal_strlit("attn_norm.weight");
    reveal_strlit("attn_q.weight");
    reveal_strlit("attn_k.weight");
    reveal_strlit("attn_v.weight");
    reveal_strlit("attn_output.weight");
    reveal_strlit("attn_q.bias");
    reveal_strlit("attn_k.bias");
    reveal_strlit("attn_v.bias");
    reveal_strlit("attn_q_norm.weight");
    reveal_strlit("attn_k_norm.weight");
    reveal_strlit("ffn_norm.weight");
    reveal_strlit(".attn_norm.weight");
    reveal_strlit("input_layernorm.weight");
    reveal_strlit(".input_layernorm.weight");
    reveal_strlit(".ffn_norm.weight");
    reveal_strlit("post_attention_layernorm.weight");
    reveal_strlit(".post_attention_layernorm.weight");
    reveal_strlit(".attn_q_norm.weight");
    reveal_strlit("self_attn.q_norm.weight");
    reveal_strlit(".self_attn.q_norm.weight");
    reveal_strlit(".attn_k_norm.weight");
    reveal_strlit("self_attn.k_norm.weight");
    reveal_strlit(".self_attn.k_norm.weight");
    assert("ffn_norm.weight"@.len() != "attn_norm.weight"@.len());
    assert("ffn_norm.weight"@.len() != "attn_q.weight"@.len());
    assert("ffn_norm.weight"@.len() != "attn_k.weight"@.len());
    assert("ffn_norm.weight"@.len() != "attn_v.weight"@.len());
    assert("ffn_norm.weight"@.len() != "attn_output.weight"@.len());
    assert("ffn_norm.weight"@.len() != "attn_q.bias"@.len());
    assert("ffn_norm.weight"@.len() != "attn_k.bias"@.len());
    assert("ffn_norm.weight"@.len() != "attn_v.bias"@.len());
    assert("ffn_norm.weight"@.len() != "attn_q_norm.weight"@.len());
    assert("ffn_norm.weight"@.len() != "attn_k_norm.weight"@.len());
    assert("attn_q_norm.weight"@.len() != "attn_norm.weight"@.len());
    assert("attn_q_norm.weight"@.len() != "attn_q.weight"@.len());
    assert("attn_q_norm.weight"@.len() != "attn_k.weight"@.len());
    assert("attn_q_norm.weight"@.len() != "attn_v.weight"@.len());
    assert("attn_q_norm.weight"@[5] != "attn_output.weight"@[5]);
    assert("attn_q_norm.weight"@.len() != "attn_q.bias"@.len());
    assert("attn_q_norm.weight"@.len() != "attn_k.bias"@.len());
    assert("attn_q_norm.weight"@.len() != "attn_v.bias"@.len());
    assert("attn_k_norm.weight"@.len() != "attn_norm.weight"@.len());
    assert("attn_k_norm.weight"@.len() != "attn_q.weight"@.len());
    assert("attn_k_norm.weight"@.len() != "attn_k.weight"@.len());
    assert("attn_k_norm.weight"@.len() != "attn_v.weight"@.len());
    assert("attn_k_norm.weight"@[5] != "attn_output.weight"@[5]);
    assert("attn_k_norm.weight"@.len() != "attn_q.bias"@.len());
    assert("attn_k_norm.weight"@.len() != "attn_k.bias"@.len());
    assert("attn_k_norm.weight"@.len() != "attn_v.bias"@.len());
    assert("attn_k_norm.weight"@[5] != "attn_q_norm.weight"@[5]);
    assert(".attn_norm.weight"@.skip(1) =~= "attn_norm.weight"@);
    lemma_layer_name(n, ".attn_norm.weight"@, "attn_norm.weight"@);
    assert(".input_layernorm.weight"@ =~= "."@ + "input_layernorm.weight"@);
    lemma_joined(n, "input_layernorm.weight"@, ".input_layernorm.weight"@);
    assert(".ffn_norm.weight"@.skip(1) =~= "ffn_norm.weight"@);
    lemma_layer_name(n, ".ffn_norm.weight"@, "ffn_norm.weight"@);
    assert(".post_attention_layernorm.weight"@ =~= "."@ + "post_attention_layernorm.weight"@);
    lemma_joined(n, "post_attention_layernorm.weight"@, ".post_attention_layernorm.weight"@);
    assert(".attn_q_norm.weight"@.skip(1) =~= "attn_q_norm.weight"@);
    lemma_layer_name(n, ".attn_q_norm.weight"@, "attn_q_norm.weight"@);
    assert(".self_attn.q_norm.weight"@ =~= "."@ + "self_attn.q_norm.weight"@);
    lemma_joined(n, "self_attn.q_norm.weight"@, ".self_attn.q_norm.weight"@);
    assert(".attn_k_norm.weight"@.skip(1) =~= "attn_k_norm.weight"@);
    lemma_layer_name(n, ".attn_k_norm.weight"@, "attn_k_norm.weight"@);
    assert(".self_attn.k_norm.weight"@ =~= "."@ + "self_attn.k_norm.weight"@);
    lemma_joined(n, "self_attn.k_norm.weight"@, ".self_attn.k_norm.weight"@);
}

/// Of any layer, gate, up and down weights are those of the projections of
/// the same roles.
#[verifier::spinoff_prover]
#[verifier::rlimit(40)]
pub proof fn feed_forward_weights_keep_their_roles(n: Seq<char>)
    requires
        undotted(n),
    ensures
        canonical_name("blk."@ + n + ".ffn_gate.weight"@) == "model.layers."@ + n
            + ".mlp.gate_proj.weight"@,
        canonical_name("blk."@ + n + ".ffn_up.weight"@) == "model.layers."@ + n
            + ".mlp.up_proj.weight"@,
        canonical_name("blk."@ + n + ".ffn_down.weight"@) == "model.layers."@ + n
            + ".mlp.down_proj.weight"@,
{
    reveal_strlit(".");
    reveal_strlit("attn_norm.weight");
    reveal_strlit("attn_q.weight");
    reveal_strlit("attn_k.weight");
    reveal_strlit("attn_v.weight");
    reveal_strlit("attn_output.weight");
    reveal_strlit("attn_q.bias");
    reveal_strlit("attn_k.bias");
    reveal_strlit("attn_v.bias");
    reveal_strlit("attn_q_norm.weight");
    reveal_strlit("attn_k_norm.weight");
    reveal_strlit("ffn_norm.weight");
    reveal_strlit("ffn_gate.weight");
    reveal_strlit("ffn_up.weight");
    reveal_strlit("ffn_down.weight");
    reveal_strlit(".ffn_gate.weight");
    reveal_strlit("mlp.gate_proj.weight");
    reveal_strlit(".mlp.gate_proj.weight");
    reveal_strlit(".ffn_up.weight");
    reveal_strlit("mlp.up_proj.weight");
    reveal_strlit(".mlp.up_proj.weight");
    reveal_strlit(".ffn_down.weight");
    reveal_strlit("mlp.down_proj.weight");
    reveal_strlit(".mlp.down_proj.weight");
    assert("ffn_gate.weight"@.len() != "attn_norm.weight"@.len());
    assert("ffn_gate.weight"@.len() != "attn_q.weight"@.len());
    assert("ffn_gate.weight"@.len() != "attn_k.weight"@.len());
    assert("ffn_gate.weight"@.len() != "attn_v.weight"@.len());
    assert("ffn_gate.weight"@.len() != "attn_output.weight"@.len());
    assert("ffn_gate.weight"@.len() != "attn_q.bias"@.len());
    assert("ffn_gate.weight"@.len() != "attn_k.bias"@.len());
    assert("ffn_gate.weight"@.len() != "attn_v.bias"@.len());
    assert("ffn_gate.weight"@.len() != "attn_q_norm.weight"@.len());
    assert("ffn_gate.weight"@.len() != "attn_k_norm.weight"@.len());
    assert("ffn_gate.weight"@[4] != "ffn_norm.weight"@[4]);
    assert("ffn_up.weight"@.len() != "attn_norm.weight"@.len());
    assert("ffn_up.weight"@[0] != "attn_q.weight"@[0]);
    assert("ffn_up.weight"@[0] != "attn_k.weight"@[0]);
    assert("ffn_up.weight"@[0] != "attn_v.weight"@[0]);
    assert("ffn_up.weight"@.len() != "attn_output.weight"@.len());
    assert("ffn_up.weight"@.len() != "attn_q.bias"@.len());
    assert("ffn_up.weight"@.len() != "attn_k.bias"@.len());
    assert("ffn_up.weight"@.len() != "attn_v.bias"@.len());
    assert("ffn_up.weight"@.len() != "attn_q_norm.weight"@.len());
    assert("ffn_up.weight"@.len() != "attn_k_norm.weight"@.len());
    assert("ffn_up.weight"@.len() != "ffn_norm.weight"@.len());
    assert("ffn_up.weight"@.len() != "ffn_gate.weight"@.len());
    assert("ffn_down.weight"@.len() != "attn_norm.weight"@.len());
    assert("ffn_down.weight"@.len() != "attn_q.weight"@.len());
    assert("ffn_down.weight"@.len() != "attn_k.weight"@.len());
    assert("ffn_down.weight"@.len() != "attn_v.weight"@.len());
    assert("ffn_down.weight"@.len() != "attn_output.weight"@.len());
    assert("ffn_down.weight"@.len() != "attn_q.bias"@.len());
    assert("ffn_down.weight"@.len() != "attn_k.bias"@.len());
    assert("ffn_down.weight"@.len() != "attn_v.bias"@.len());
    assert("ffn_down.weight"@.len() != "attn_q_norm.weight"@.len());
    assert("ffn_down.weight"@.len() != "attn_k_norm.weight"@.len());
    assert("ffn_down.weight"@[4] != "ffn_norm.weight"@[4]);
    assert("ffn_down.weight"@[4] != "ffn_gate.weight"@[4]);
    assert("ffn_down.weight"@.len() != "ffn_up.weight"@.len());
    assert(".ffn_gate.weight"@.skip(1) =~= "ffn_gate.weight"@);
    lemma_layer_name(n, ".ffn_gate.weight"@, "ffn_gate.weight"@);
    assert(".mlp.gate_proj.weight"@ =~= "."@ + "mlp.gate_proj.weight"@);
    lemma_joined(n, "mlp.gate_proj.weight"@, ".mlp.gate_proj.weight"@);
    assert(".ffn_up.weight"@.skip(1) =~= "ffn_up.weight"@);
    lemma_layer_name(n, ".ffn_up.weight"@, "ffn_up.weight"@);
    assert(".mlp.up_proj.weight"@ =~= "."@ + "mlp.up_proj.weight"@);
    lemma_joined(n, "mlp.up_proj.weight"@, ".mlp.up_proj.weight"@);
    assert(".ffn_down.weight"@.skip(1) =~= "ffn_down.weight"@);
    lemma_layer_name(n, ".ffn_down.weight"@, "ffn_down.weight"@);
    assert(".mlp.down_proj.weight"@ =~= "."@ + "mlp.down_proj.weight"@);
    lemma_joined(n, "mlp.down_proj.weight"@, ".mlp.down_proj.weight"@);
}

/// Outside the layers: the embedding, the last norm and the head.
pub proof fn model_tensors_keep_their_roles()
    ensures
        canonical_name("token_embd.weight"@) == "model.embed_tokens.weight"@,
        canonical_name("output_norm.weight"@) == "model.norm.weight"@,
        canonical_name("output.weight"@) == "lm_head.weight"@,
{
    reveal_strlit("token_embd.weight");
    reveal_strlit("output_norm.weight");
    reveal_strlit("output.weight");
    assert("output_norm.weight"@.len() != "token_embd.weight"@.len());
    assert("output.weight"@.len() != "token_embd.weight"@.len());
    assert("output.weight"@.len() != "output_norm.weight"@.len());
}

/// A layer keeps its number, whatever the tensor, and a tensor that has no
/// dot after its role is not one of the known ones: it keeps its name.
#[verifier::spinoff_prover]
#[verifier::rlimit(40)]
pub proof fn layers_keep_their_numbers(n: Seq<char>, part: Seq<char>)
    requires
        undotted(n),
    ensures
        text::begins(
            canonical_name("blk."@ + n + "."@ + part),
            "model.layers."@ + n + "."@,
        ),
        undotted(part) ==> canonical_name("blk."@ + n + "."@ + part) == "model.layers."@ + n + "."@
            + part,
{
    reveal_strlit(".");
    reveal_strlit("model.layers.");
    reveal_strlit("attn_norm.weight");
    reveal_strlit("attn_q.weight");
    reveal_strlit("attn_k.weight");
    reveal_strlit("attn_v.weight");
    reveal_strlit("attn_output.weight");
    reveal_strlit("attn_q.bias");
    reveal_strlit("attn_k.bias");
    reveal_strlit("attn_v.bias");
    reveal_strlit("attn_q_norm.weight");
    reveal_strlit("attn_k_norm.weight");
    reveal_strlit("ffn_norm.weight");
    reveal_strlit("ffn_gate.weight");
    reveal_strlit("ffn_up.weight");
    reveal_strlit("ffn_down.weight");
    let dotted = "."@ + part;
    assert(dotted.skip(1) =~= part);
    assert("blk."@ + n + dotted =~= "blk."@ + n + "."@ + part);
    lemma_layer_name(n, dotted, part);
    let c = "model.layers."@ + n + "."@ + layer_part(part);
    assert(c.take(("model.layers."@ + n + "."@).len() as int) =~= "model.layers."@ + n + "."@);
    if undotted(part) {
        assert(layer_part(part) == part) by {
            if part.len() > 5 {
                assert(part[4] != '.' && part[5] != '.');
            }
            if part == "attn_norm.weight"@ {
                assert(part[9] == '.');
            }
            if part == "attn_q.weight"@ {
                assert(part[6] == '.');
            }
            if part == "attn_k.weight"@ {
                assert(part[6] == '.');
            }
            if part == "attn_v.weight"@ {
                assert(part[6] == '.');
            }
            if part == "attn_output.weight"@ {
                assert(part[11] == '.');
            }
            if part == "attn_q.bias"@ {
                assert(part[6] == '.');
            }
            if part == "attn_k.bias"@ {
                assert(part[6] == '.');
            }
            if part == "attn_v.bias"@ {
                assert(part[6] == '.');
            }
            if part == "attn_q_norm.weight"@ {
                assert(part[11] == '.');
            }
            if part == "attn_k_norm.weight"@ {
                assert(part[11] == '.');
            }
            if part == "ffn_norm.weight"@ {
                assert(part[8] == '.');
            }
            if part == "ffn_gate.weight"@ {
                assert(part[8] == '.');
            }
            if part == "ffn_up.weight"@ {
                assert(part[6] == '.');
            }
            if part == "ffn_down.weight"@ {
                assert(part[8] == '.');
            }
        }
    }
}

/// A name that is neither of a layer nor one of the three of the model is
/// kept as it is.
pub proof fn other_names_are_kept(name: Seq<char>)
    requires
        forall|rest: Seq<char>| name != #[trigger] ("blk."@ + rest),
        name != "token_embd.weight"@,
        name != "output_norm.weight"@,
        name != "output.weight"@,
    ensures
        canonical_name(name) == name,
{
    if text::begins(name, "blk."@) {
        let rest = name.skip(4);
        reveal_strlit("blk.");
        assert(name =~= "blk."@ + rest);
    }
}

/// What has `norm` in its name, or ends in `.bias`, is stored in fixed-point
/// words; everything else in 8-bit blocks.
pub proof fn norms_and_biases_are_words(name: Seq<char>)
    ensures
        forall|a: Seq<char>, b: Seq<char>|
            name == #[trigger] (a + "norm"@ + b) ==> encoding_for(name) == "u32"@,
        forall|a: Seq<char>| name == #[trigger] (a + ".bias"@) ==> encoding_for(name) == "u32"@,
        (forall|a: Seq<char>, b: Seq<char>| name != #[trigger] (a + "norm"@ + b)) && (forall|
            a: Seq<char>,
        | name != #[trigger] (a + ".bias"@)) ==> encoding_for(name) == "q8"@,
{
    assert forall|a: Seq<char>, b: Seq<char>| name == #[trigger] (a + "norm"@ + b) implies
        encoding_for(name) == "u32"@ by {
        let i = a.len() as int;
        assert(name.subrange(i, i + "norm"@.len()) =~= "norm"@);
        assert(text::stands_at(name, i, "norm"@));
    }
    assert forall|a: Seq<char>| name == #[trigger] (a + ".bias"@) implies encoding_for(name)
        == "u32"@ by {
        assert(name.skip(a.len() as int) =~= ".bias"@);
    }
    if text::holds(name, "norm"@) {
        let i = choose|i: int| #[trigger] text::stands_at(name, i, "norm"@);
        let a = name.take(i);
        let b = name.skip(i + "norm"@.len());
        assert(name =~= a + "norm"@ + b) by {
            let m = name.subrange(i, i + "norm"@.len());
            assert(name =~= a + m + b);
        }
    }
    if text::ends(name, ".bias"@) {
        let i = name.len() - ".bias"@.len();
        assert(name =~= name.take(i) + name.skip(i));
    }
}

} // verus!
