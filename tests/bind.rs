use yalm::{layer_tensor_name, ActivationType, Config, Container, DType, InferenceState, LayerNormType, LoadError, Model};

fn config(n_layers: usize) -> Config {
    Config {
        dim: 4,
        hidden_dim: 8,
        head_dim: 2,
        n_layers,
        n_heads: 2,
        n_kv_heads: 1,
        vocab_size: 5,
        max_seq_len: 16,
        rope_theta_bits: 10000.0f32.to_bits(),
        rotary_dim: 2,
        norm_eps_bits: 1e-5f32.to_bits(),
        act: ActivationType::SILU,
        norm_type: LayerNormType::RMSNorm,
        qkv_clip_bits: f32::MAX.to_bits(),
        weight_dtype: DType::U8,
    }
}

/// Every tensor the configuration asks for, with its shape, in binding order.
fn tensors_for(c: &Config) -> Vec<(String, Vec<usize>)> {
    let q = c.n_heads * c.head_dim;
    let kv = c.n_kv_heads * c.head_dim;
    let mut v = vec![("model.embed.weight".to_string(), vec![c.vocab_size, c.dim])];
    for i in 0..c.n_layers {
        let l = |s: &str| format!("model.layers.{}{}", i, s);
        v.push((l(".attn.norm.weight"), vec![c.dim]));
        v.push((l(".mlp.norm.weight"), vec![c.dim]));
        v.push((l(".attn.wq.weight"), vec![q, c.dim]));
        v.push((l(".attn.wk.weight"), vec![kv, c.dim]));
        v.push((l(".attn.wv.weight"), vec![kv, c.dim]));
        v.push((l(".attn.wo.weight"), vec![c.dim, q]));
        v.push((l(".mlp.w1.weight"), vec![c.hidden_dim, c.dim]));
        v.push((l(".mlp.w2.weight"), vec![c.dim, c.hidden_dim]));
        v.push((l(".mlp.w3.weight"), vec![c.hidden_dim, c.dim]));
    }
    v.push(("model.norm.weight".to_string(), vec![c.dim]));
    v.push(("model.output.weight".to_string(), vec![c.vocab_size, c.dim]));
    v
}

/// A U8 container header for `tensors`, laid out back to back; returns the
/// header and the data length.
fn header(tensors: &[(String, Vec<usize>)], dtype: &dyn Fn(&str) -> &'static str) -> (String, usize) {
    let mut parts = Vec::new();
    let mut off = 0usize;
    for (n, shape) in tensors {
        let dt = dtype(n);
        let width = if dt == "F32" { 4 } else { 1 };
        let len = shape.iter().product::<usize>() * width;
        let dims: Vec<String> = shape.iter().map(|d| d.to_string()).collect();
        parts.push(format!(
            "\"{}\": {{\"dtype\": \"{}\", \"shape\": [{}], \"data_offsets\": [{}, {}]}}",
            n,
            dt,
            dims.join(","),
            off,
            off + len
        ));
        off += len;
    }
    (format!("{{{}}}", parts.join(", ")), off)
}

fn container(tensors: &[(String, Vec<usize>)]) -> Container {
    let (h, len) = header(tensors, &|_| "U8");
    Container::decode(h.as_bytes(), vec![7; len]).unwrap()
}

#[test]
fn binds_two_layer_model() {
    let cfg = config(2);
    let c = container(&tensors_for(&cfg));
    let m = Model::bind(&c, cfg).unwrap();
    assert_eq!(m.blocks().len(), 2);
    assert_eq!(m.config(), cfg);
    let ts = m.container().tensors();
    assert_eq!(ts[m.token_embedding_table()].name(), "model.embed.weight");
    assert_eq!(ts[m.rms_final_weight()].name(), "model.norm.weight");
    assert_eq!(ts[m.wcls()].name(), "model.output.weight");
    let b = m.blocks()[1];
    assert_eq!(ts[b.wq].name(), "model.layers.1.attn.wq.weight");
    assert_eq!(ts[b.w3].name(), "model.layers.1.mlp.w3.weight");
    assert_eq!(ts[b.wk].shape(), &vec![2, 4]);
    assert_eq!(ts[b.wo].shape(), &vec![4, 4]);
    assert_eq!(ts[b.rms_att_weight].shape(), &vec![4]);
    assert_eq!(m.container().bytes(&ts[b.wq]).len(), 16);
}

#[test]
fn missing_layer_one_wq_fails() {
    let cfg = config(2);
    let all: Vec<_> = tensors_for(&cfg).into_iter().filter(|(n, _)| n != "model.layers.1.attn.wq.weight").collect();
    let c = container(&all);
    let r = Model::bind(&c, cfg);
    assert_eq!(r.err(), Some(LoadError::MissingTensor("model.layers.1.attn.wq.weight".to_string())));
}

#[test]
fn indivisible_heads_fail() {
    let mut cfg = config(1);
    cfg.n_heads = 8;
    cfg.n_kv_heads = 3;
    let c = container(&tensors_for(&config(1)));
    assert_eq!(Model::bind(&c, cfg).err(), Some(LoadError::InvalidConfig));
}

#[test]
fn other_invalid_configs() {
    let c = container(&tensors_for(&config(1)));
    let mut cfg = config(1);
    cfg.n_kv_heads = 0;
    assert_eq!(Model::bind(&c, cfg).err(), Some(LoadError::InvalidConfig));
    let mut cfg = config(1);
    cfg.rotary_dim = 3;
    assert_eq!(Model::bind(&c, cfg).err(), Some(LoadError::InvalidConfig));
    let mut cfg = config(1);
    cfg.n_heads = usize::MAX;
    cfg.n_kv_heads = 1;
    assert_eq!(Model::bind(&c, cfg).err(), Some(LoadError::InvalidConfig));
}

#[test]
fn dtype_mismatch_fails() {
    let cfg = config(1);
    let (h, len) = header(&tensors_for(&cfg), &|n| if n == "model.norm.weight" { "F32" } else { "U8" });
    let c = Container::decode(h.as_bytes(), vec![0; len]).unwrap();
    let r = Model::bind(&c, cfg);
    assert_eq!(
        r.err(),
        Some(LoadError::DTypeMismatch("model.norm.weight".to_string(), DType::U8, DType::F32))
    );
}

#[test]
fn shape_mismatch_fails() {
    let cfg = config(1);
    let mut all = tensors_for(&cfg);
    for t in all.iter_mut() {
        if t.0 == "model.layers.0.attn.wk.weight" {
            t.1 = vec![4, 4];
        }
    }
    let c = container(&all);
    let r = Model::bind(&c, cfg);
    assert_eq!(
        r.err(),
        Some(LoadError::ShapeMismatch("model.layers.0.attn.wk.weight".to_string(), vec![2, 4], vec![4, 4]))
    );
}

#[test]
fn first_failure_in_binding_order() {
    let cfg = config(2);
    let all: Vec<_> = tensors_for(&cfg)
        .into_iter()
        .filter(|(n, _)| n != "model.output.weight" && n != "model.layers.1.mlp.w2.weight")
        .collect();
    let c = container(&all);
    let r = Model::bind(&c, cfg);
    assert_eq!(r.err(), Some(LoadError::MissingTensor("model.layers.1.mlp.w2.weight".to_string())));
}

#[test]
fn zero_layer_model() {
    let cfg = config(0);
    let c = container(&tensors_for(&cfg));
    let m = Model::bind(&c, cfg).unwrap();
    assert!(m.blocks().is_empty());
}

#[test]
fn layer_names() {
    assert_eq!(layer_tensor_name(0, ".attn.wq.weight"), "model.layers.0.attn.wq.weight");
    assert_eq!(layer_tensor_name(12, ".mlp.w1.weight"), "model.layers.12.mlp.w1.weight");
    assert_eq!(layer_tensor_name(1070, ""), "model.layers.1070");
    assert_eq!(layer_tensor_name(usize::MAX, ""), format!("model.layers.{}", usize::MAX));
}

#[test]
fn inference_state_shapes() {
    let cfg = config(2);
    let c = container(&tensors_for(&cfg));
    let m = Model::bind(&c, cfg).unwrap();
    let s = InferenceState::for_model(&m);
    assert_eq!(s.x, vec![4]);
    assert_eq!(s.xb2, vec![4]);
    assert_eq!(s.hb, vec![8]);
    assert_eq!(s.q, vec![4]);
    assert_eq!(s.k, vec![2]);
    assert_eq!(s.v, vec![2]);
    assert_eq!(s.att, vec![2, 16]);
    assert_eq!(s.logits, vec![5]);
    assert_eq!(s.key_cache, vec![2, 16, 2]);
    assert_eq!(s.value_cache, vec![2, 16, 2]);
}
