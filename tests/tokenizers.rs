use ctranslate2_src_build_support::config::{BatchType, ComputeType, Device, TranslatorConfig};
use ctranslate2_src_build_support::tokenizer::sentencepiece::{model_paths, Tokenizer as PairTokenizer};
use ctranslate2_src_build_support::tokenizer::{encode_all, Tokenizer};

struct Words;

impl Tokenizer for Words {
    fn encode(&self, input: &str) -> anyhow::Result<Vec<String>> {
        if input.is_empty() {
            return Err(anyhow::Error::msg("empty"));
        }
        Ok(input.split(' ').map(|s| s.to_string()).collect())
    }

    fn decode(&self, tokens: Vec<String>) -> anyhow::Result<String> {
        Ok(tokens.join(" "))
    }
}

#[test]
fn encode_all_in_order() {
    let out = encode_all(&Words, &vec!["a b".to_string(), "c".to_string()]).unwrap();
    assert_eq!(out, vec![vec!["a".to_string(), "b".to_string()], vec!["c".to_string()]]);
    assert!(encode_all(&Words, &vec!["a".to_string(), String::new()]).is_err());
}

#[test]
fn pair_tokenizer_from_opened_models() {
    let t = PairTokenizer::from_file::<String>(Ok(1), Ok(2)).unwrap();
    assert_eq!((t.enc, t.dec), (1, 2));
    let e = PairTokenizer::<i32>::from_file(Err("src".to_string()), Err("tgt".to_string()));
    assert_eq!(e.err(), Some("src".to_string()));
    let e = PairTokenizer::<i32>::from_file(Ok(1), Err("tgt".to_string()));
    assert_eq!(e.err(), Some("tgt".to_string()));
    assert_eq!(model_paths("/m"), ("/m/source.spm".to_string(), "/m/target.spm".to_string()));
}

#[test]
fn translator_defaults() {
    let c = TranslatorConfig::default();
    assert_eq!(c.device, Device::Cpu);
    assert_eq!(c.compute_type, ComputeType::Default);
    assert_eq!(c.device_indices, vec![0]);
    assert!(!c.tensor_parallel);
    assert_eq!(c.num_threads_per_replica, 0);
    assert_eq!(c.max_queued_batches, 0);
    assert_eq!(c.cpu_core_offset, -1);
    assert_eq!(ComputeType::Float16.code(), 9);
    assert_eq!(ComputeType::Int8.code(), 3);
    assert_eq!(Device::Cuda.code(), 1);
    assert_eq!(BatchType::Tokens.code(), 1);
}
