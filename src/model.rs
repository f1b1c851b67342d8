use vstd::prelude::*;

use crate::container::{tensor_names, Container, ContainerModel};
use crate::dtype::DType;
use crate::error::{Fault, LoadError};
use crate::names::{layer_name, layer_tensor_name};
use crate::tensor::TensorModel;

verus! {

#[derive(Debug, Clone, Copy, PartialEq, Eq, Structural)]
pub enum ActivationType {
    GELU,
    SILU,
}

#[derive(Debug, Clone, Copy, PartialEq, Eq, Structural)]
pub enum LayerNormType {
    RMSNorm,
}

/// Topology of a transformer model. The numeric tolerances are kept as the
/// bit patterns of their `f32` values: this library does no arithmetic on
/// them and hands them on unchanged.
#[derive(Debug, Clone, Copy, PartialEq, Eq, Structural)]
pub struct Config {
    /// Transformer input and output dimension.
    pub dim: usize,
    /// Dimension of the feed-forward network's hidden layer.
    pub hidden_dim: usize,
    /// Dimension of each attention head.
    pub head_dim: usize,
    pub n_layers: usize,
    /// Number of attention query heads.
    pub n_heads: usize,
    /// Number of key and value heads; divides `n_heads`.
    pub n_kv_heads: usize,
    pub vocab_size: usize,
    pub max_seq_len: usize,
    /// Bits of the `f32` RoPE theta.
    pub rope_theta_bits: u32,
    /// Number of leading elements of each head that are rotated.
    pub rotary_dim: usize,
    /// Bits of the `f32` normalization epsilon.
    pub norm_eps_bits: u32,
    pub act: ActivationType,
    pub norm_type: LayerNormType,
    /// Bits of the `f32` bound to which query, key and value entries are clipped.
    pub qkv_clip_bits: u32,
    /// Element kind that every weight tensor must have.
    pub weight_dtype: DType,
}

/// The configuration can govern a model: key/value heads divide the query
/// heads, the rotary part fits in a head, and the projection widths fit in
/// `usize`.
pub open spec fn config_ok(c: Config) -> bool {
    &&& c.n_kv_heads > 0
    &&& c.n_kv_heads <= c.n_heads
    &&& c.n_heads % c.n_kv_heads == 0
    &&& c.rotary_dim <= c.head_dim
    &&& c.n_heads * c.head_dim <= usize::MAX
}

pub open spec fn q_width(c: Config) -> usize {
    (c.n_heads * c.head_dim) as usize
}

pub open spec fn kv_width(c: Config) -> usize {
    (c.n_kv_heads * c.head_dim) as usize
}

pub open spec fn embed_name() -> Seq<char> {
    "model.embed.weight"@
}

pub open spec fn final_norm_name() -> Seq<char> {
    "model.norm.weight"@
}

pub open spec fn classifier_name() -> Seq<char> {
    "model.output.weight"@
}

/// The tensors of layer `i` in the order a block holds them: name and the
/// shape the configuration implies.
pub open spec fn layer_requirements(c: Config, i: nat) -> Seq<(Seq<char>, Seq<usize>)> {
    seq![
        (layer_name(i, ".attn.norm.weight"@), seq![c.dim]),
        (layer_name(i, ".mlp.norm.weight"@), seq![c.dim]),
        (layer_name(i, ".attn.wq.weight"@), seq![q_width(c), c.dim]),
        (layer_name(i, ".attn.wk.weight"@), seq![kv_width(c), c.dim]),
        (layer_name(i, ".attn.wv.weight"@), seq![kv_width(c), c.dim]),
        (layer_name(i, ".attn.wo.weight"@), seq![c.dim, q_width(c)]),
        (layer_name(i, ".mlp.w1.weight"@), seq![c.hidden_dim, c.dim]),
        (layer_name(i, ".mlp.w2.weight"@), seq![c.dim, c.hidden_dim]),
        (layer_name(i, ".mlp.w3.weight"@), seq![c.hidden_dim, c.dim]),
    ]
}

/// Looks up tensor `name` among `ts` and checks its dtype, then its shape;
/// gives its index.
pub open spec fn resolve_spec(ts: Seq<TensorModel>, name: Seq<char>, shape: Seq<usize>, dtype: DType) -> Result<
    usize,
    Fault,
> {
    if exists|i: int| 0 <= i < ts.len() && ts[i].name == name {
        let i = choose|i: int| 0 <= i < ts.len() && ts[i].name == name;
        if ts[i].dtype != dtype {
            Err(Fault::DTypeMismatch(name, dtype, ts[i].dtype))
        } else if ts[i].shape != shape {
            Err(Fault::ShapeMismatch(name, shape, ts[i].shape))
        } else {
            Ok(i as usize)
        }
    } else {
        Err(Fault::MissingTensor(name))
    }
}

/// Resolves each requirement in order; the first that fails gives the error.
pub open spec fn resolve_all(ts: Seq<TensorModel>, reqs: Seq<(Seq<char>, Seq<usize>)>, dtype: DType) -> Result<
    Seq<usize>,
    Fault,
>
    decreases reqs.len(),
{
    if reqs.len() == 0 {
        Ok(Seq::empty())
    } else {
        match resolve_all(ts, reqs.drop_last(), dtype) {
            Err(e) => Err(e),
            Ok(found) => match resolve_spec(ts, reqs.last().0, reqs.last().1, dtype) {
                Err(e) => Err(e),
                Ok(i) => Ok(found.push(i)),
            },
        }
    }
}

/// Resolves the blocks of layers `0..n` in order.
pub open spec fn bind_layers(ts: Seq<TensorModel>, c: Config, n: nat) -> Result<Seq<Seq<usize>>, Fault>
    decreases n,
{
    if n == 0 {
        Ok(Seq::empty())
    } else {
        match bind_layers(ts, c, (n - 1) as nat) {
            Err(e) => Err(e),
            Ok(bs) => match resolve_all(ts, layer_requirements(c, (n - 1) as nat), c.weight_dtype) {
                Err(e) => Err(e),
                Ok(b) => Ok(bs.push(b)),
            },
        }
    }
}

pub ghost struct ModelModel {
    pub config: Config,
    /// For each layer, the indices of its tensors in layer-requirement order.
    pub blocks: Seq<Seq<usize>>,
    pub token_embedding_table: usize,
    pub rms_final_weight: usize,
    pub wcls: usize,
}

/// The outcome of binding the tensors `ts` of a container under `c`: the
/// configuration is checked first, then the embedding table, the layers in
/// order, the final norm and the classifier.
pub open spec fn bind_spec(ts: Seq<TensorModel>, c: Config) -> Result<ModelModel, Fault> {
    if !config_ok(c) {
        Err(Fault::InvalidConfig)
    } else {
        let dt = c.weight_dtype;
        match resolve_spec(ts, embed_name(), seq![c.vocab_size, c.dim], dt) {
            Err(e) => Err(e),
            Ok(embed) => match bind_layers(ts, c, c.n_layers as nat) {
                Err(e) => Err(e),
                Ok(blocks) => match resolve_spec(ts, final_norm_name(), seq![c.dim], dt) {
                    Err(e) => Err(e),
                    Ok(norm) => match resolve_spec(ts, classifier_name(), seq![c.vocab_size, c.dim], dt) {
                        Err(e) => Err(e),
                        Ok(out) => Ok(
                            ModelModel {
                                config: c,
                                blocks,
                                token_embedding_table: embed,
                                rms_final_weight: norm,
                                wcls: out,
                            },
                        ),
                    },
                },
            },
        }
    }
}

/// One transformer layer's weights, each the index of a tensor in the
/// container the model was bound from.
#[derive(Debug, Clone, Copy, PartialEq, Eq, Structural)]
pub struct Block {
    /// (dim) attention norm weights.
    pub rms_att_weight: usize,
    /// (dim) feed-forward norm weights.
    pub rms_ffn_weight: usize,
    /// (n_heads * head_dim, dim)
    pub wq: usize,
    /// (n_kv_heads * head_dim, dim)
    pub wk: usize,
    /// (n_kv_heads * head_dim, dim)
    pub wv: usize,
    /// (dim, n_heads * head_dim)
    pub wo: usize,
    /// (hidden_dim, dim)
    pub w1: usize,
    /// (dim, hidden_dim)
    pub w2: usize,
    /// (hidden_dim, dim)
    pub w3: usize,
}

impl View for Block {
    type V = Seq<usize>;

    open spec fn view(&self) -> Seq<usize> {
        seq![
            self.rms_att_weight,
            self.rms_ffn_weight,
            self.wq,
            self.wk,
            self.wv,
            self.wo,
            self.w1,
            self.w2,
            self.w3,
        ]
    }
}

/// A model bound to the container it borrows its weights from.
pub struct Model<'a> {
    container: &'a Container,
    config: Config,
    blocks: Vec<Block>,
    token_embedding_table: usize,
    rms_final_weight: usize,
    wcls: usize,
}

impl<'a> Model<'a> {
    #[verifier::type_invariant]
    spec fn inv(&self) -> bool {
        &&& config_ok(self.config)
        &&& self.blocks.len() == self.config.n_layers
    }

    /// The container the model was bound from.
    pub closed spec fn source(&self) -> ContainerModel {
        self.container@
    }
}

impl<'a> View for Model<'a> {
    type V = ModelModel;

    closed spec fn view(&self) -> ModelModel {
        ModelModel {
            config: self.config,
            blocks: self.blocks@.map_values(|b: Block| b@),
            token_embedding_table: self.token_embedding_table,
            rms_final_weight: self.rms_final_weight,
            wcls: self.wcls,
        }
    }
}

pub open spec fn model_result<'a>(r: Result<Model<'a>, LoadError>) -> Result<ModelModel, Fault> {
    match r {
        Ok(m) => Ok(m@),
        Err(e) => Err(e@),
    }
}

fn same_shape(a: &Vec<usize>, b: &Vec<usize>) -> (r: bool)
    ensures
        r == (a@ == b@),
{
    if a.len() != b.len() {
        return false;
    }
    let mut i: usize = 0;
    while i < a.len()
        invariant
            0 <= i <= a.len(),
            a.len() == b.len(),
            forall|k: int| 0 <= k < i ==> a@[k] == b@[k],
        decreases a.len() - i,
    {
        if a[i] != b[i] {
            return false;
        }
        i = i + 1;
    }
    assert(a@ =~= b@);
    true
}

fn copy_shape(a: &Vec<usize>) -> (r: Vec<usize>)
    ensures
        r@ == a@,
{
    let mut r: Vec<usize> = Vec::new();
    let mut i: usize = 0;
    while i < a.len()
        invariant
            0 <= i <= a.len(),
            r@ == a@.take(i as int),
        decreases a.len() - i,
    {
        r.push(a[i]);
        i = i + 1;
        assert(r@ =~= a@.take(i as int));
    }
    assert(a@.take(i as int) =~= a@);
    r
}

/// Finds tensor `name` in `c` and checks it against `shape` and `dtype`.
fn resolve(c: &Container, name: String, shape: Vec<usize>, dtype: DType) -> (r: Result<usize, LoadError>)
    ensures
        match r {
            Ok(i) => resolve_spec(c@.tensors, name@, shape@, dtype) == Ok::<usize, Fault>(i),
            Err(e) => resolve_spec(c@.tensors, name@, shape@, dtype) == Err::<usize, Fault>(e@),
        },
{
    let ghost ts = c@.tensors;
    match c.find(&name) {
        None => Err(LoadError::MissingTensor(name)),
        Some(i) => {
            proof {
                let j = choose|j: int| 0 <= j < ts.len() && ts[j].name == name@;
                let names = tensor_names(ts);
                assert(names[j] == ts[j].name && names[i as int] == ts[i as int].name);
                assert(j == i);
            }
            let t = &c.tensors()[i];
            assert(t@ == ts[i as int]);
            if t.dtype() != dtype {
                return Err(LoadError::DTypeMismatch(name, dtype, t.dtype()));
            }
            if !same_shape(t.shape(), &shape) {
                let actual = copy_shape(t.shape());
                return Err(LoadError::ShapeMismatch(name, shape, actual));
            }
            Ok(i)
        },
    }
}

pub open spec fn requirements_view(reqs: Seq<(String, Vec<usize>)>) -> Seq<(Seq<char>, Seq<usize>)> {
    reqs.map_values(|p: (String, Vec<usize>)| (p.0@, p.1@))
}

/// The requirements of layer `i`, as [`layer_requirements`] gives them.
fn layer_requirements_of(c: &Config, i: usize) -> (r: Vec<(String, Vec<usize>)>)
    requires
        config_ok(*c),
    ensures
        requirements_view(r@) == layer_requirements(*c, i as nat),
{
    proof {
        assert(c.n_kv_heads * c.head_dim <= c.n_heads * c.head_dim) by (nonlinear_arith)
            requires
                c.n_kv_heads <= c.n_heads,
        ;
    }
    let q = c.n_heads * c.head_dim;
    let kv = c.n_kv_heads * c.head_dim;
    let (d, h) = (c.dim, c.hidden_dim);
    let s0 = vec![d];
    let s1 = vec![d];
    let s2 = vec![q, d];
    let s3 = vec![kv, d];
    let s4 = vec![kv, d];
    let s5 = vec![d, q];
    let s6 = vec![h, d];
    let s7 = vec![d, h];
    let s8 = vec![h, d];
    let ghost shapes = seq![s0@, s1@, s2@, s3@, s4@, s5@, s6@, s7@, s8@];
    let r = vec![
        (layer_tensor_name(i, ".attn.norm.weight"), s0),
        (layer_tensor_name(i, ".mlp.norm.weight"), s1),
        (layer_tensor_name(i, ".attn.wq.weight"), s2),
        (layer_tensor_name(i, ".attn.wk.weight"), s3),
        (layer_tensor_name(i, ".attn.wv.weight"), s4),
        (layer_tensor_name(i, ".attn.wo.weight"), s5),
        (layer_tensor_name(i, ".mlp.w1.weight"), s6),
        (layer_tensor_name(i, ".mlp.w2.weight"), s7),
        (layer_tensor_name(i, ".mlp.w3.weight"), s8),
    ];
    let ghost want = layer_requirements(*c, i as nat);
    assert forall|k: int| 0 <= k < 9 implies #[trigger] shapes[k] =~= want[k].1 by {}
    assert forall|k: int| 0 <= k < 9 implies #[trigger] requirements_view(r@)[k] == want[k] by {
        assert(shapes[k] == want[k].1);
    }
    assert(requirements_view(r@) =~= layer_requirements(*c, i as nat));
    r
}

proof fn lemma_resolve_all_err_extends(
    ts: Seq<TensorModel>,
    reqs: Seq<(Seq<char>, Seq<usize>)>,
    k: int,
    dtype: DType,
)
    requires
        0 <= k <= reqs.len(),
        resolve_all(ts, reqs.take(k), dtype) is Err,
    ensures
        resolve_all(ts, reqs, dtype) == resolve_all(ts, reqs.take(k), dtype),
    decreases reqs.len() - k,
{
    if k < reqs.len() {
        assert(reqs.take(k + 1).drop_last() == reqs.take(k));
        lemma_resolve_all_err_extends(ts, reqs, k + 1, dtype);
    } else {
        assert(reqs.take(k) == reqs);
    }
}

/// Resolves each requirement in order.
fn resolve_each(c: &Container, reqs: &Vec<(String, Vec<usize>)>, dtype: DType) -> (r: Result<Vec<usize>, LoadError>)
    ensures
        match r {
            Ok(found) => resolve_all(c@.tensors, requirements_view(reqs@), dtype) == Ok::<Seq<usize>, Fault>(found@),
            Err(e) => resolve_all(c@.tensors, requirements_view(reqs@), dtype) == Err::<Seq<usize>, Fault>(e@),
        },
{
    let ghost rv = requirements_view(reqs@);
    let ghost ts = c@.tensors;
    let mut found: Vec<usize> = Vec::new();
    let mut i: usize = 0;
    assert(rv.take(0) =~= Seq::<(Seq<char>, Seq<usize>)>::empty());
    while i < reqs.len()
        invariant
            0 <= i <= reqs.len(),
            rv == requirements_view(reqs@),
            ts == c@.tensors,
            resolve_all(ts, rv.take(i as int), dtype) == Ok::<Seq<usize>, Fault>(found@),
        decreases reqs.len() - i,
    {
        assert(rv.take(i + 1).drop_last() == rv.take(i as int));
        let name = reqs[i].0.clone();
        let shape = copy_shape(&reqs[i].1);
        match resolve(c, name, shape, dtype) {
            Ok(k) => {
                found.push(k);
            },
            Err(e) => {
                proof {
                    lemma_resolve_all_err_extends(ts, rv, i + 1, dtype);
                }
                return Err(e);
            },
        }
        i = i + 1;
    }
    assert(rv.take(i as int) == rv);
    Ok(found)
}

proof fn lemma_bind_layers_err_extends(ts: Seq<TensorModel>, c: Config, k: nat, n: nat)
    requires
        k <= n,
        bind_layers(ts, c, k) is Err,
    ensures
        bind_layers(ts, c, n) == bind_layers(ts, c, k),
    decreases n - k,
{
    if k < n {
        lemma_bind_layers_err_extends(ts, c, k + 1, n);
    }
}

impl<'a> Model<'a> {
    /// Binds the tensors of `container` into a model governed by `config`.
    /// All or nothing: the first check that fails gives the error.
    pub fn bind(container: &'a Container, config: Config) -> (r: Result<Model<'a>, LoadError>)
        ensures
            model_result(r) == bind_spec(container@.tensors, config),
            r matches Ok(m) ==> m.source() == container@,
    {
        let ghost ts = container@.tensors;
        if config.n_kv_heads == 0 || config.n_kv_heads > config.n_heads
            || config.n_heads % config.n_kv_heads != 0 || config.rotary_dim > config.head_dim {
            return Err(LoadError::InvalidConfig);
        }
        if config.n_heads.checked_mul(config.head_dim).is_none() {
            return Err(LoadError::InvalidConfig);
        }
        let dt = config.weight_dtype;
        let table_shape = vec![config.vocab_size, config.dim];
        assert(table_shape@ =~= seq![config.vocab_size, config.dim]);
        let embed = match resolve(container, String::from_str("model.embed.weight"), table_shape, dt) {
            Ok(k) => k,
            Err(e) => {
                return Err(e);
            },
        };
        let mut blocks: Vec<Block> = Vec::new();
        let mut i: usize = 0;
        assert(blocks@.map_values(|b: Block| b@) =~= Seq::<Seq<usize>>::empty());
        while i < config.n_layers
            invariant
                0 <= i <= config.n_layers,
                blocks.len() == i,
                config_ok(config),
                ts == container@.tensors,
                dt == config.weight_dtype,
                resolve_spec(ts, embed_name(), seq![config.vocab_size, config.dim], dt) == Ok::<usize, Fault>(embed),
                bind_layers(ts, config, i as nat) == Ok::<Seq<Seq<usize>>, Fault>(
                    blocks@.map_values(|b: Block| b@),
                ),
            decreases config.n_layers - i,
        {
            let reqs = layer_requirements_of(&config, i);
            match resolve_each(container, &reqs, dt) {
                Ok(found) => {
                    assert(found@.len() == 9) by {
                        lemma_resolve_all_len(ts, requirements_view(reqs@), dt);
                    }
                    let b = Block {
                        rms_att_weight: found[0],
                        rms_ffn_weight: found[1],
                        wq: found[2],
                        wk: found[3],
                        wv: found[4],
                        wo: found[5],
                        w1: found[6],
                        w2: found[7],
                        w3: found[8],
                    };
                    assert(b@ =~= found@);
                    blocks.push(b);
                },
                Err(e) => {
                    proof {
                        assert(requirements_view(reqs@) == layer_requirements(config, i as nat));
                        assert(((i + 1) as nat - 1) as nat == i as nat);
                        assert(bind_layers(ts, config, (i + 1) as nat) == Err::<Seq<Seq<usize>>, Fault>(e@));
                        lemma_bind_layers_err_extends(ts, config, (i + 1) as nat, config.n_layers as nat);
                    }
                    return Err(e);
                },
            }
            i = i + 1;
            assert(blocks@.map_values(|b: Block| b@) =~= bind_layers(ts, config, i as nat)->Ok_0);
        }
        let norm_shape = vec![config.dim];
        assert(norm_shape@ =~= seq![config.dim]);
        let norm = match resolve(container, String::from_str("model.norm.weight"), norm_shape, dt) {
            Ok(k) => k,
            Err(e) => {
                return Err(e);
            },
        };
        let out_shape = vec![config.vocab_size, config.dim];
        assert(out_shape@ =~= seq![config.vocab_size, config.dim]);
        let out = match resolve(container, String::from_str("model.output.weight"), out_shape, dt) {
            Ok(k) => k,
            Err(e) => {
                return Err(e);
            },
        };
        Ok(
            Model {
                container,
                config,
                blocks,
                token_embedding_table: embed,
                rms_final_weight: norm,
                wcls: out,
            },
        )
    }
}

proof fn lemma_resolve_all_len(ts: Seq<TensorModel>, reqs: Seq<(Seq<char>, Seq<usize>)>, dtype: DType)
    requires
        resolve_all(ts, reqs, dtype) is Ok,
    ensures
        resolve_all(ts, reqs, dtype)->Ok_0.len() == reqs.len(),
    decreases reqs.len(),
{
    if reqs.len() > 0 {
        lemma_resolve_all_len(ts, reqs.drop_last(), dtype);
    }
}

/// Tensor `i` of `ts` is the one the requirement `(name, shape)` asks for,
/// with the dtype `dtype`.
pub open spec fn meets(ts: Seq<TensorModel>, i: usize, name: Seq<char>, shape: Seq<usize>, dtype: DType) -> bool {
    &&& i < ts.len()
    &&& ts[i as int].name == name
    &&& ts[i as int].shape == shape
    &&& ts[i as int].dtype == dtype
}

proof fn lemma_resolve_meets(ts: Seq<TensorModel>, name: Seq<char>, shape: Seq<usize>, dtype: DType)
    requires
        ts.len() <= usize::MAX,
        resolve_spec(ts, name, shape, dtype) is Ok,
    ensures
        meets(ts, resolve_spec(ts, name, shape, dtype)->Ok_0, name, shape, dtype),
{
}

proof fn lemma_resolve_all_meets(ts: Seq<TensorModel>, reqs: Seq<(Seq<char>, Seq<usize>)>, dtype: DType)
    requires
        ts.len() <= usize::MAX,
        resolve_all(ts, reqs, dtype) is Ok,
    ensures
        ({
            let found = resolve_all(ts, reqs, dtype)->Ok_0;
            &&& found.len() == reqs.len()
            &&& forall|k: int| 0 <= k < reqs.len() ==> meets(ts, #[trigger] found[k], reqs[k].0, reqs[k].1, dtype)
        }),
    decreases reqs.len(),
{
    if reqs.len() > 0 {
        let prefix = reqs.drop_last();
        lemma_resolve_all_meets(ts, prefix, dtype);
        lemma_resolve_meets(ts, reqs.last().0, reqs.last().1, dtype);
        let found = resolve_all(ts, reqs, dtype)->Ok_0;
        let before = resolve_all(ts, prefix, dtype)->Ok_0;
        assert forall|k: int| 0 <= k < reqs.len() - 1 implies found[k] == before[k] && reqs[k] == prefix[k] by {}
    }
}

proof fn lemma_bind_layers_meets(ts: Seq<TensorModel>, c: Config, n: nat)
    requires
        ts.len() <= usize::MAX,
        bind_layers(ts, c, n) is Ok,
    ensures
        ({
            let bs = bind_layers(ts, c, n)->Ok_0;
            &&& bs.len() == n
            &&& forall|i: int| 0 <= i < n ==> (#[trigger] bs[i]).len() == 9
            &&& forall|i: int, k: int| 0 <= i < n && 0 <= k < 9 ==> {
                let req = layer_requirements(c, i as nat)[k];
                meets(ts, #[trigger] bs[i][k], req.0, req.1, c.weight_dtype)
            }
        }),
    decreases n,
{
    if n > 0 {
        let m = (n - 1) as nat;
        lemma_bind_layers_meets(ts, c, m);
        lemma_resolve_all_meets(ts, layer_requirements(c, m), c.weight_dtype);
        let bs = bind_layers(ts, c, n)->Ok_0;
        let before = bind_layers(ts, c, m)->Ok_0;
        let found = resolve_all(ts, layer_requirements(c, m), c.weight_dtype)->Ok_0;
        assert(bs == before.push(found));
        assert forall|i: int| 0 <= i < n implies (#[trigger] bs[i]).len() == 9 by {
            if i < m {
                assert(bs[i] == before[i]);
            } else {
                assert(layer_requirements(c, m).len() == 9);
            }
        }
        assert forall|i: int, k: int| 0 <= i < n && 0 <= k < 9 implies {
            let req = layer_requirements(c, i as nat)[k];
            meets(ts, #[trigger] bs[i][k], req.0, req.1, c.weight_dtype)
        } by {
            if i < m {
                assert(bs[i] == before[i]);
                assert(meets(ts, before[i][k], layer_requirements(c, i as nat)[k].0, layer_requirements(c, i as nat)[k].1, c.weight_dtype));
            } else {
                assert(bs[i] == found);
                assert(layer_requirements(c, m).len() == 9);
                assert(found.len() == 9);
                assert(meets(ts, found[k], layer_requirements(c, m)[k].0, layer_requirements(c, m)[k].1, c.weight_dtype));
            }
        }
    }
}

/// What a bound model guarantees: exactly `n_layers` blocks, and every tensor
/// it refers to is the one its name and layer ask for, with the configured
/// dtype and the shape the configuration implies.
pub proof fn law_bound_model(ts: Seq<TensorModel>, c: Config)
    requires
        ts.len() <= usize::MAX,
        bind_spec(ts, c) is Ok,
    ensures
        ({
            let m = bind_spec(ts, c)->Ok_0;
            let dt = c.weight_dtype;
            &&& config_ok(c)
            &&& m.config == c
            &&& m.blocks.len() == c.n_layers
            &&& forall|i: int| 0 <= i < c.n_layers ==> (#[trigger] m.blocks[i]).len() == 9
            &&& forall|i: int, k: int| 0 <= i < c.n_layers && 0 <= k < 9 ==> {
                let req = layer_requirements(c, i as nat)[k];
                meets(ts, #[trigger] m.blocks[i][k], req.0, req.1, dt)
            }
            &&& meets(ts, m.token_embedding_table, embed_name(), seq![c.vocab_size, c.dim], dt)
            &&& meets(ts, m.rms_final_weight, final_norm_name(), seq![c.dim], dt)
            &&& meets(ts, m.wcls, classifier_name(), seq![c.vocab_size, c.dim], dt)
        }),
{
    let dt = c.weight_dtype;
    lemma_resolve_meets(ts, embed_name(), seq![c.vocab_size, c.dim], dt);
    lemma_bind_layers_meets(ts, c, c.n_layers as nat);
    lemma_resolve_meets(ts, final_norm_name(), seq![c.dim], dt);
    lemma_resolve_meets(ts, classifier_name(), seq![c.vocab_size, c.dim], dt);
}

/// A container that lacks any tensor of any layer the configuration asks for
/// cannot be bound: binding never yields a model with fewer layers.
pub proof fn law_missing_layer_tensor(ts: Seq<TensorModel>, c: Config, layer: nat, k: int)
    requires
        ts.len() <= usize::MAX,
        layer < c.n_layers,
        0 <= k < 9,
        forall|j: int| 0 <= j < ts.len() ==> ts[j].name != layer_requirements(c, layer)[k].0,
    ensures
        bind_spec(ts, c) is Err,
{
    if bind_spec(ts, c) is Ok {
        law_bound_model(ts, c);
        let m = bind_spec(ts, c)->Ok_0;
        assert(meets(ts, m.blocks[layer as int][k], layer_requirements(c, layer)[k].0, layer_requirements(c, layer)[k].1, c.weight_dtype));
    }
}

proof fn lemma_bind_layers_ok(ts: Seq<TensorModel>, c: Config, n: nat)
    requires
        forall|j: nat| j < n ==> (#[trigger] resolve_all(ts, layer_requirements(c, j), c.weight_dtype)) is Ok,
    ensures
        bind_layers(ts, c, n) is Ok,
    decreases n,
{
    if n > 0 {
        lemma_bind_layers_ok(ts, c, (n - 1) as nat);
        assert(resolve_all(ts, layer_requirements(c, (n - 1) as nat), c.weight_dtype) is Ok);
    }
}

/// With a valid configuration, when the embedding table and every tensor of
/// the layers before `layer` conform, as do the two norms of `layer`, but no
/// tensor carries the name of that layer's query projection, binding fails
/// with `MissingTensor` of exactly that name, rather than yielding a model
/// with fewer layers.
pub proof fn law_missing_query_projection(ts: Seq<TensorModel>, c: Config, layer: nat)
    requires
        config_ok(c),
        layer < c.n_layers,
        resolve_spec(ts, embed_name(), seq![c.vocab_size, c.dim], c.weight_dtype) is Ok,
        forall|j: nat|
            j < layer ==> (#[trigger] resolve_all(ts, layer_requirements(c, j), c.weight_dtype)) is Ok,
        forall|k: int|
            0 <= k < 2 ==> (#[trigger] resolve_spec(
                ts,
                layer_requirements(c, layer)[k].0,
                layer_requirements(c, layer)[k].1,
                c.weight_dtype,
            )) is Ok,
        forall|i: int| 0 <= i < ts.len() ==> ts[i].name != layer_name(layer, ".attn.wq.weight"@),
    ensures
        bind_spec(ts, c) == Err::<ModelModel, Fault>(
            Fault::MissingTensor(layer_name(layer, ".attn.wq.weight"@)),
        ),
{
    let dt = c.weight_dtype;
    let reqs = layer_requirements(c, layer);
    let missing = Err::<Seq<usize>, Fault>(Fault::MissingTensor(layer_name(layer, ".attn.wq.weight"@)));
    lemma_bind_layers_ok(ts, c, layer);
    assert(reqs.take(1).drop_last() =~= reqs.take(0));
    assert(reqs.take(2).drop_last() =~= reqs.take(1));
    assert(reqs.take(3).drop_last() =~= reqs.take(2));
    assert(resolve_spec(ts, reqs[0].0, reqs[0].1, dt) is Ok);
    assert(resolve_spec(ts, reqs[1].0, reqs[1].1, dt) is Ok);
    assert(resolve_all(ts, reqs.take(0), dt) is Ok);
    assert(resolve_all(ts, reqs.take(1), dt) is Ok);
    assert(resolve_all(ts, reqs.take(2), dt) is Ok);
    assert(resolve_all(ts, reqs.take(3), dt) == missing);
    lemma_resolve_all_err_extends(ts, reqs, 3, dt);
    assert(((layer + 1) as nat - 1) as nat == layer);
    assert(bind_layers(ts, c, layer + 1) == Err::<Seq<Seq<usize>>, Fault>(
        Fault::MissingTensor(layer_name(layer, ".attn.wq.weight"@)),
    ));
    lemma_bind_layers_err_extends(ts, c, layer + 1, c.n_layers as nat);
}

impl<'a> Model<'a> {
    pub fn config(&self) -> (r: Config)
        ensures
            r == self@.config,
    {
        self.config
    }

    /// The layers' weight bundles, in layer order.
    pub fn blocks(&self) -> (r: &Vec<Block>)
        ensures
            r@.map_values(|b: Block| b@) == self@.blocks,
    {
        &self.blocks
    }

    /// The container the model's tensors live in.
    pub fn container(&self) -> (r: &'a Container)
        ensures
            r@ == self.source(),
    {
        self.container
    }

    /// Index of the token embedding table, (vocab_size, dim).
    pub fn token_embedding_table(&self) -> (r: usize)
        ensures
            r == self@.token_embedding_table,
    {
        self.token_embedding_table
    }

    /// Index of the final norm weights, (dim).
    pub fn rms_final_weight(&self) -> (r: usize)
        ensures
            r == self@.rms_final_weight,
    {
        self.rms_final_weight
    }

    /// Index of the classifier weights, (vocab_size, dim).
    pub fn wcls(&self) -> (r: usize)
        ensures
            r == self@.wcls,
    {
        self.wcls
    }
}

/// Shapes of the scratch buffers and key/value cache that an execution
/// engine keeps for one model. The engine allocates and fills them; this
/// library only says what shape each must have.
#[derive(Debug)]
pub struct InferenceState {
    /// (dim) latest activation.
    pub x: Vec<usize>,
    /// (dim) activation inside a residual branch.
    pub xb: Vec<usize>,
    /// (dim) second slot of the same.
    pub xb2: Vec<usize>,
    /// (hidden_dim) feed-forward hidden buffer.
    pub hb: Vec<usize>,
    /// (hidden_dim) second slot of the same.
    pub hb2: Vec<usize>,
    /// (n_heads * head_dim) query vectors of the latest step.
    pub q: Vec<usize>,
    /// (n_kv_heads * head_dim) key vectors of the latest step.
    pub k: Vec<usize>,
    /// (n_kv_heads * head_dim) value vectors of the latest step.
    pub v: Vec<usize>,
    /// (n_heads, max_seq_len) attention scores.
    pub att: Vec<usize>,
    /// (vocab_size) output logits.
    pub logits: Vec<usize>,
    /// (n_layers, max_seq_len, n_kv_heads * head_dim) cached keys.
    pub key_cache: Vec<usize>,
    /// (n_layers, max_seq_len, n_kv_heads * head_dim) cached values.
    pub value_cache: Vec<usize>,
}

impl InferenceState {
    /// The buffer shapes that the configuration of `model` implies.
    pub fn for_model(model: &Model) -> (r: InferenceState)
        ensures
            ({
                let c = model@.config;
                &&& r.x@ == seq![c.dim]
                &&& r.xb@ == seq![c.dim]
                &&& r.xb2@ == seq![c.dim]
                &&& r.hb@ == seq![c.hidden_dim]
                &&& r.hb2@ == seq![c.hidden_dim]
                &&& r.q@ == seq![q_width(c)]
                &&& r.k@ == seq![kv_width(c)]
                &&& r.v@ == seq![kv_width(c)]
                &&& r.att@ == seq![c.n_heads, c.max_seq_len]
                &&& r.logits@ == seq![c.vocab_size]
                &&& r.key_cache@ == seq![c.n_layers, c.max_seq_len, kv_width(c)]
                &&& r.value_cache@ == seq![c.n_layers, c.max_seq_len, kv_width(c)]
            }),
    {
        proof {
            use_type_invariant(model);
        }
        let c = model.config();
        proof {
            assert(c.n_kv_heads * c.head_dim <= c.n_heads * c.head_dim) by (nonlinear_arith)
                requires
                    c.n_kv_heads <= c.n_heads,
            ;
        }
        let q = c.n_heads * c.head_dim;
        let kv = c.n_kv_heads * c.head_dim;
        let r = InferenceState {
            x: vec![c.dim],
            xb: vec![c.dim],
            xb2: vec![c.dim],
            hb: vec![c.hidden_dim],
            hb2: vec![c.hidden_dim],
            q: vec![q],
            k: vec![kv],
            v: vec![kv],
            att: vec![c.n_heads, c.max_seq_len],
            logits: vec![c.vocab_size],
            key_cache: vec![c.n_layers, c.max_seq_len, kv],
            value_cache: vec![c.n_layers, c.max_seq_len, kv],
        };
        assert(r.x@ =~= seq![c.dim]);
        assert(r.xb@ =~= seq![c.dim]);
        assert(r.xb2@ =~= seq![c.dim]);
        assert(r.hb@ =~= seq![c.hidden_dim]);
        assert(r.hb2@ =~= seq![c.hidden_dim]);
        assert(r.q@ =~= seq![q_width(c)]);
        assert(r.k@ =~= seq![kv_width(c)]);
        assert(r.v@ =~= seq![kv_width(c)]);
        assert(r.att@ =~= seq![c.n_heads, c.max_seq_len]);
        assert(r.logits@ =~= seq![c.vocab_size]);
        assert(r.key_cache@ =~= seq![c.n_layers, c.max_seq_len, kv_width(c)]);
        assert(r.value_cache@ =~= seq![c.n_layers, c.max_seq_len, kv_width(c)]);
        r
    }
}

} // verus!
