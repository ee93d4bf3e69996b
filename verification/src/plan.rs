//! GPU work as data: which kernels run, on which buffers, with which
//! parameters and launch geometry, and where the memory barriers stand.

use vstd::prelude::*;

verus! {

/// A compute kernel of the Metal backend.
#[derive(Clone, Copy, Debug, PartialEq, Eq, Structural)]
pub enum Kernel {
    Matmul,
    RmsNorm,
    Silu,
    Scale,
    Q4,
    Q4k,
    Q6k,
    Q8,
    Add,
    SiluMul,
    Rope,
    Q4Dual,
    Q8Dual,
    Q4Gus,
    Q8Gus,
    QkRope,
    QkNorm,
    QkNormRope,
    Q4Qkv,
    Q8Qkv,
    Q4Res,
    Q8Res,
    Q4Mb32,
    Q8Mb32,
    Q4DualMb32,
    Q8DualMb32,
    Q4GusMb32,
    Q8GusMb32,
    Q4ResMb64,
    Q8ResMb64,
    Q4ResMb96,
    Q8ResMb96,
    Q4GusNrmMb32,
    Q8GusNrmMb32,
    Q4NrmMb32,
    Q8NrmMb32,
    Q4DualNrmMb32,
    Q8DualNrmMb32,
    Q8Large,
    Q8LargeNrm,
    Q8LargeGusNrm,
    Q8LargeRes,
    Q8NrmMb64,
    Q8DualNrmMb64,
    Q8GusNrmMb64,
    Q8GusNrmMb48,
    Q8GusNrmMb64R4,
    Q4NrmMb64,
    Q4DualNrmMb64,
    Q4GusNrmMb64,
    Q4GusNrmMb48,
    Q4Large,
    Q4LargeRes,
    Q8Large4Nrm,
    Q8Large4GusNrm,
    Q8Large4GusNrmGelu,
    Q8Large2Res,
    Q8Large4Res,
    Q8Large8Res,
    Q8Mbx16Res,
    Q8Large4tRes,
    Q8Large8tRes,
    Q8Large16tRes,
    Q8Mb192,
    /// Scaled dot-product attention of one geometry.
    Attn,
    /// Cache append of one geometry, one of K and V per launch.
    KvAppend,
    /// Cache append of one geometry, K and V in one launch.
    KvAppendBoth,
    /// Rotary embedding, cache append and attention of one geometry.
    RopeKvAttn,
    /// Head normalisation and rotary embedding of one geometry.
    GeometryQkNormRope,
}

/// A buffer that a launch binds.
#[derive(Clone, Copy, Debug, PartialEq, Eq, Structural)]
pub enum Operand {
    /// A tensor of the caller, by its place in the call.
    Input(usize),
    /// An intermediate buffer of the plan.
    Scratch(usize),
    /// A buffer that becomes a result of the plan.
    Output(usize),
    /// The K cache in this slot of the attention state.
    KCache(usize),
    /// The V cache in this slot of the attention state.
    VCache(usize),
    /// The table of rotary cosines of the attention state.
    RopeCos,
    /// The table of rotary sines of the attention state.
    RopeSin,
    /// A tensor of one decoder layer, by the layer's place in the call.
    Layer(usize, LayerTensor),
}

/// The tensors of a decoder layer that the fused decode path binds.
#[derive(Clone, Copy, Debug, PartialEq, Eq, Structural)]
pub enum LayerTensor {
    InputNorm,
    QProj,
    KProj,
    VProj,
    QBias,
    KBias,
    VBias,
    QNorm,
    KNorm,
    OProj,
    PostNorm,
    PostAttnNorm,
    PostFfwNorm,
    GateProj,
    UpProj,
    DownProj,
}

/// A buffer bound at a byte offset.
#[derive(Clone, Copy, Debug, PartialEq, Eq, Structural)]
pub struct Binding {
    pub operand: Operand,
    pub offset: usize,
}

/// The four words that every kernel takes as its parameter block. Words that
/// a kernel reads as a single-precision float hold its bit pattern.
#[derive(Clone, Copy, Debug, PartialEq, Eq, Structural)]
pub struct Params {
    pub w0: u32,
    pub w1: u32,
    pub w2: u32,
    pub w3: u32,
}

/// Threadgroup counts, or threads of a threadgroup, in x, y and z.
#[derive(Clone, Copy, Debug, PartialEq, Eq, Structural)]
pub struct Extent {
    pub x: usize,
    pub y: usize,
    pub z: usize,
}

/// One kernel launch. `buffers[i]` is bound at index `i`, and the parameter
/// block at the index after the last of them.
#[derive(Debug, PartialEq, Eq)]
pub struct Launch {
    pub kernel: Kernel,
    pub buffers: Vec<Binding>,
    pub params: Params,
    pub groups: Extent,
    pub threads: Extent,
}

/// One step of a command buffer.
#[derive(Debug, PartialEq, Eq)]
pub enum Step {
    Launch(Launch),
    /// What was written before is visible to what runs after.
    Barrier,
}

/// The mathematical content of a [`Step`].
pub enum StepView {
    Launch {
        kernel: Kernel,
        buffers: Seq<Binding>,
        params: Params,
        groups: Extent,
        threads: Extent,
    },
    Barrier,
}

impl View for Step {
    type V = StepView;

    open spec fn view(&self) -> StepView {
        match self {
            Step::Launch(l) => StepView::Launch {
                kernel: l.kernel,
                buffers: l.buffers@,
                params: l.params,
                groups: l.groups,
                threads: l.threads,
            },
            Step::Barrier => StepView::Barrier,
        }
    }
}

/// A command buffer under construction.
#[derive(Debug, PartialEq, Eq)]
pub struct Program {
    pub steps: Vec<Step>,
}

impl View for Program {
    type V = Seq<StepView>;

    open spec fn view(&self) -> Seq<StepView> {
        self.steps@.map_values(|s: Step| s@)
    }
}

/// A buffer bound from its start.
pub open spec fn at(operand: Operand) -> Binding {
    Binding { operand, offset: 0 }
}

/// A buffer bound from its start.
pub fn bind(operand: Operand) -> (b: Binding)
    ensures
        b == at(operand),
{
    Binding { operand, offset: 0 }
}

/// An extent along x alone.
pub open spec fn along_x(x: nat) -> Extent {
    Extent { x: x as usize, y: 1, z: 1 }
}

/// An extent along x alone.
pub fn row(x: usize) -> (e: Extent)
    ensures
        e == along_x(x as nat),
{
    Extent { x, y: 1, z: 1 }
}

/// The number of groups of `per` that hold `n` items.
pub open spec fn ceil_div(n: nat, per: nat) -> nat
    recommends
        per > 0,
{
    ((n + per - 1) / per as int) as nat
}

/// The number of groups of `per` that hold `n` items.
pub fn groups_of(n: u32, per: u32) -> (g: usize)
    requires
        per > 0,
    ensures
        g == ceil_div(n as nat, per as nat),
{
    proof {
        lemma_ceil_div(n as nat, per as nat);
    }
    let whole: u32 = n / per;
    if n % per == 0 {
        whole as usize
    } else {
        proof {
            assert(n / per < n || per == 1) by (nonlinear_arith)
                requires
                    per > 0,
                    n % per != 0,
            ;
            assert(per == 1 ==> n % per == 0) by (nonlinear_arith);
        }
        (whole + 1) as usize
    }
}

proof fn lemma_ceil_div(n: nat, per: nat)
    requires
        per > 0,
    ensures
        ceil_div(n, per) == n / per + (if n % per == 0 { 0nat } else { 1 }),
{
    let q = n / per;
    let r = n % per;
    vstd::arithmetic::div_mod::lemma_fundamental_div_mod(n as int, per as int);
    if r == 0 {
        vstd::arithmetic::div_mod::lemma_fundamental_div_mod_converse(
            n + per - 1,
            per as int,
            q as int,
            per - 1,
        );
    } else {
        assert(n + per - 1 == per * (q + 1) + (r - 1)) by (nonlinear_arith)
            requires
                n == per * q + r,
        ;
        assert((q + 1) * per == per * (q + 1)) by (nonlinear_arith);
        vstd::arithmetic::div_mod::lemma_fundamental_div_mod_converse(
            n + per - 1,
            per as int,
            q as int + 1,
            r - 1,
        );
    }
}

impl Program {
    /// A command buffer without steps.
    pub fn new() -> (p: Program)
        ensures
            p@ == Seq::<StepView>::empty(),
    {
        let p = Program { steps: Vec::new() };
        assert(p@ =~= Seq::<StepView>::empty());
        p
    }

    /// Adds a memory barrier.
    pub fn barrier(&mut self)
        ensures
            final(self)@ == old(self)@.push(StepView::Barrier),
    {
        self.steps.push(Step::Barrier);
        assert(self@ =~= old(self)@.push(StepView::Barrier));
    }

    /// Adds a kernel launch.
    pub fn launch(
        &mut self,
        kernel: Kernel,
        buffers: Vec<Binding>,
        params: Params,
        groups: Extent,
        threads: Extent,
    )
        ensures
            final(self)@ == old(self)@.push(
                (StepView::Launch { kernel, buffers: buffers@, params, groups, threads }),
            ),
    {
        let ghost added = StepView::Launch { kernel, buffers: buffers@, params, groups, threads };
        self.steps.push(Step::Launch(Launch { kernel, buffers, params, groups, threads }));
        assert(self@ =~= old(self)@.push(added));
    }
}

/// A result buffer and the single launch that fills it.
#[derive(Debug, PartialEq, Eq)]
pub struct Dispatch {
    pub out_bytes: usize,
    pub program: Program,
}

/// A dispatch of one launch.
pub fn single(
    out_bytes: usize,
    kernel: Kernel,
    buffers: Vec<Binding>,
    params: Params,
    groups: Extent,
    threads: Extent,
) -> (d: Dispatch)
    ensures
        d.out_bytes == out_bytes,
        d.program@ == seq![
            (StepView::Launch { kernel, buffers: buffers@, params, groups, threads }),
        ],
{
    let mut program = Program::new();
    program.launch(kernel, buffers, params, groups, threads);
    assert(program@ =~= seq![
        (StepView::Launch { kernel, buffers: buffers@, params, groups, threads }),
    ]);
    Dispatch { out_bytes, program }
}

/// A buffer that becomes a tensor.
#[derive(Debug, PartialEq, Eq)]
pub struct OutputBuffer {
    pub bytes: usize,
    pub shape: Vec<usize>,
}

/// The mathematical content of an [`OutputBuffer`].
#[verifier::ext_equal]
pub struct OutputView {
    pub bytes: int,
    pub shape: Seq<usize>,
}

impl View for OutputBuffer {
    type V = OutputView;

    open spec fn view(&self) -> OutputView {
        OutputView { bytes: self.bytes as int, shape: self.shape@ }
    }
}

/// An output of this size and shape.
pub open spec fn output(bytes: int, shape: Seq<usize>) -> OutputView {
    OutputView { bytes, shape }
}

/// An output of this size and shape.
pub fn output_of(bytes: usize, shape: Vec<usize>) -> (o: OutputBuffer)
    ensures
        o@ == output(bytes as int, shape@),
{
    OutputBuffer { bytes, shape }
}

/// A command buffer with the buffers that it needs.
#[derive(Debug, PartialEq, Eq)]
pub struct Plan {
    /// Sizes in bytes of the intermediate buffers.
    pub scratch: Vec<usize>,
    pub outputs: Vec<OutputBuffer>,
    pub program: Program,
}

impl Plan {
    /// The sizes and shapes of the results.
    pub open spec fn outputs_view(self) -> Seq<OutputView> {
        self.outputs@.map_values(|o: OutputBuffer| o@)
    }

    /// A plan without buffers.
    pub fn new(program: Program) -> (p: Plan)
        ensures
            p.program == program,
            p.scratch@ == Seq::<usize>::empty(),
            p.outputs_view() == Seq::<OutputView>::empty(),
    {
        let p = Plan { scratch: Vec::new(), outputs: Vec::new(), program };
        assert(p.outputs_view() =~= Seq::<OutputView>::empty());
        p
    }

    /// Adds an intermediate buffer.
    pub fn add_scratch(&mut self, bytes: usize)
        ensures
            final(self).program == old(self).program,
            final(self).outputs_view() == old(self).outputs_view(),
            final(self).scratch@ == old(self).scratch@.push(bytes),
    {
        self.scratch.push(bytes);
    }

    /// Adds a result.
    pub fn add_output(&mut self, o: OutputBuffer)
        ensures
            final(self).program == old(self).program,
            final(self).scratch == old(self).scratch,
            final(self).outputs_view() == old(self).outputs_view().push(o@),
    {
        self.outputs.push(o);
        assert(self.outputs_view() =~= old(self).outputs_view().push(o@));
    }
}

/// Groups of `per` cover all `n` items, and the last group is not empty.
pub proof fn groups_cover(n: nat, per: nat)
    requires
        per > 0,
    ensures
        ceil_div(n, per) * per >= n,
        n > 0 ==> (ceil_div(n, per) - 1) * per < n,
        n == 0 ==> ceil_div(n, per) == 0,
{
    let q = (n + per - 1) / per as int;
    vstd::arithmetic::div_mod::lemma_fundamental_div_mod(n + per - 1, per as int);
    assert(q * per <= n + per - 1 < q * per + per) by (nonlinear_arith)
        requires
            n + per - 1 == per * q + (n + per - 1) % per as int,
            0 <= (n + per - 1) % per as int,
            (n + per - 1) % (per as int) < per,
    ;
    assert(q >= 0) by (nonlinear_arith)
        requires
            n + per - 1 < q * per + per,
            n + per - 1 >= 0,
            per > 0,
    ;
    assert((q - 1) * per == q * per - per) by (nonlinear_arith);
    if n == 0 {
        assert(q == 0) by (nonlinear_arith)
            requires
                q * per <= per - 1,
                q >= 0,
                per > 0,
        ;
    }
}

} // verus!
