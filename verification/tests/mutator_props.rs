//! Mutator behaviour: the weighted strategy table, each mutation's
//! shape guarantees, and dictionary parsing.

use zfuzz::mutator::{parse_dict, Mutation, Mutator};

#[test]
fn new_builds_the_weighted_strategy_table() {
    let m = Mutator::new(None);
    assert_eq!(m.havoc_counter, 0);
    assert_eq!(m.mutation_strats.len(), 2770);
    assert!(m.dictionary.is_none());
    assert_eq!(m.mutation_strats[0], Mutation::ByteReplace);
    assert_eq!(m.mutation_strats[999], Mutation::ByteReplace);
    assert_eq!(m.mutation_strats[1000], Mutation::BitFlip);
    assert_eq!(m.mutation_strats[2000], Mutation::MagicNum);
    assert_eq!(m.mutation_strats[2200], Mutation::SimpleArithmetic);
    assert_eq!(m.mutation_strats[2700], Mutation::RemoveBlock);
    assert_eq!(m.mutation_strats[2730], Mutation::DupBlock);
    assert_eq!(m.mutation_strats[2760], Mutation::Resize);
}

#[test]
fn new_adds_dictionary_strategies_only_with_a_dictionary() {
    let m = Mutator::new(Some(vec![b"key".to_vec()]));
    assert_eq!(m.mutation_strats.len(), 2800);
    assert_eq!(m.mutation_strats[2799], Mutation::Dictionary);
}

#[test]
fn default_is_a_mutator_without_a_dictionary() {
    let m = Mutator::default();
    assert!(m.dictionary.is_none());
    assert_eq!(m.havoc_counter, 0);
}

#[test]
fn byte_replace_keeps_the_length_and_refuses_tiny_inputs() {
    let mut m = Mutator::new(None);
    let mut tiny = vec![1u8, 2, 3];
    assert!(m.byte_replace(&mut tiny).is_err());
    assert_eq!(tiny, vec![1, 2, 3]);
    let mut input = vec![7u8; 64];
    assert!(m.byte_replace(&mut input).is_ok());
    assert_eq!(input.len(), 64);
}

#[test]
fn bit_flip_keeps_the_length_and_refuses_tiny_inputs() {
    let mut m = Mutator::new(None);
    let mut tiny = vec![1u8, 2, 3];
    assert!(m.bit_flip(&mut tiny).is_err());
    let mut input = vec![0u8; 64];
    assert!(m.bit_flip(&mut input).is_ok());
    assert_eq!(input.len(), 64);
}

#[test]
fn magic_nums_replaces_the_tail_with_a_pattern() {
    let mut m = Mutator::new(None);
    let mut small = vec![0u8; 31];
    assert!(m.magic_nums(&mut small).is_err());
    assert_eq!(small.len(), 31);
    let mut input = vec![0x55u8; 64];
    assert!(m.magic_nums(&mut input).is_ok());
    assert!(input.len() < 64);
    assert!(input.len() >= 1);
}

#[test]
fn simple_arithmetic_keeps_the_length() {
    let mut m = Mutator::new(None);
    let mut input = vec![0x80u8; 48];
    assert!(m.simple_arithmetic(&mut input).is_ok());
    assert_eq!(input.len(), 48);
}

#[test]
fn remove_block_never_leaves_fewer_than_32_bytes() {
    let mut m = Mutator::new(None);
    let mut small = vec![0u8; 31];
    assert!(m.remove_block(&mut small).is_err());
    for _ in 0..32 {
        let mut input = vec![9u8; 600];
        if m.remove_block(&mut input).is_ok() {
            assert!(input.len() >= 32);
            assert!(input.len() <= 600);
        } else {
            assert_eq!(input.len(), 600);
        }
    }
}

#[test]
fn duplicate_block_only_grows_the_input() {
    let mut m = Mutator::new(None);
    let mut small = vec![0u8; 31];
    assert!(m.duplicate_block(&mut small).is_err());
    for _ in 0..32 {
        let mut input: Vec<u8> = (0u8..200).collect();
        assert!(m.duplicate_block(&mut input).is_ok());
        assert!(input.len() >= 200);
    }
}

#[test]
fn resize_results_keep_at_least_32_bytes() {
    let mut m = Mutator::new(None);
    for _ in 0..64 {
        let mut input = vec![3u8; 100];
        if m.resize(&mut input).is_ok() {
            assert!(input.len() >= 32);
        } else {
            assert_eq!(input.len(), 100);
        }
    }
}

#[test]
fn dict_replace_swaps_an_entry_into_the_input() {
    let dict = vec![b"TOKEN".to_vec()];
    let mut m = Mutator::new(Some(dict));
    for _ in 0..16 {
        let mut input = vec![b'.'; 40];
        if m.dict_replace(&mut input).is_ok() {
            assert_eq!(input.len(), 40);
            let s = input.windows(5).any(|w| w == b"TOKEN");
            assert!(s, "a dictionary entry must appear in the mutated input");
        }
    }
    // An entry that does not fit strictly inside the input is refused.
    let mut tiny = vec![b'.'; 5];
    assert!(m.dict_replace(&mut tiny).is_err());
}

#[test]
fn mutate_advances_the_havoc_counter_and_keeps_inputs_nonempty() {
    let mut m = Mutator::new(None);
    let mut input = vec![0xaau8; 128];
    for round in 1..=250u32 {
        let before = m.havoc_counter;
        m.mutate(&mut input);
        if before + 1 == 100 {
            assert_eq!(m.havoc_counter, 0);
        } else {
            assert_eq!(m.havoc_counter, before + 1);
        }
        assert!(input.len() >= 1, "round {round}: mutated input went empty");
    }
}

#[test]
fn parse_dict_splits_lines_and_strips_line_endings() {
    let data = b"one\ntwo\r\nthree".to_vec();
    let dict = parse_dict(&data);
    assert_eq!(dict, vec![b"one".to_vec(), b"two".to_vec(), b"three".to_vec()]);
}

#[test]
fn parse_dict_handles_empty_and_terminated_files() {
    assert_eq!(parse_dict(&Vec::new()), Vec::<Vec<u8>>::new());
    let dict = parse_dict(&b"last\n".to_vec());
    assert_eq!(dict, vec![b"last".to_vec()]);
    let dict = parse_dict(&b"a\n\nb\n".to_vec());
    assert_eq!(dict, vec![b"a".to_vec(), Vec::new(), b"b".to_vec()]);
}
