use qrng::pipeline::{encode_output, process_bits, summarize, OutputForm, StageSummary};
use qrng::{bits_to_bytes, hash_randomness, von_neumann_debias};

#[test]
fn without_stages_the_raw_bits_pass_through() {
    let raw = [1u8, 0, 0, 1, 1];
    let out = process_bits(&raw, false, false);
    assert_eq!(out.bits, raw.to_vec());
    assert_eq!(out.before, StageSummary { length: 5, ones: 3 });
    assert_eq!(out.after, StageSummary { length: 5, ones: 3 });
    assert_eq!(out.debiased, None);
    assert_eq!(out.whitened, None);
    assert!(!out.fell_back);
}

#[test]
fn debiasing_alone_reports_its_stage() {
    let raw = [0u8, 1, 1, 0, 1, 1, 0, 0];
    let out = process_bits(&raw, true, false);
    assert_eq!(out.bits, vec![0, 1]);
    assert_eq!(out.before, StageSummary { length: 8, ones: 4 });
    assert_eq!(out.debiased, Some(StageSummary { length: 2, ones: 1 }));
    assert_eq!(out.whitened, None);
    assert_eq!(out.after, StageSummary { length: 2, ones: 1 });
    assert!(!out.fell_back);
}

#[test]
fn a_constant_source_raises_the_fallback_warning() {
    let out = process_bits(&[1, 1, 1, 1], true, false);
    assert_eq!(out.bits, vec![1]);
    assert!(out.fell_back);
    assert_eq!(out.debiased, Some(StageSummary { length: 1, ones: 1 }));
    let plain = process_bits(&[1, 1, 1, 1], false, false);
    assert!(!plain.fell_back);
    assert_eq!(plain.bits, vec![1, 1, 1, 1]);
}

#[test]
fn whitening_alone_hashes_the_raw_bits() {
    let raw = [1u8, 0, 1, 1, 0, 0, 1, 0, 1];
    let out = process_bits(&raw, false, true);
    assert_eq!(out.bits, hash_randomness(&raw));
    assert_eq!(out.bits.len(), 256);
    assert_eq!(out.debiased, None);
    assert_eq!(out.whitened, Some(out.after));
    assert_eq!(out.after.length, 256);
    assert_eq!(out.after.ones, out.bits.iter().filter(|&&b| b == 1).count());
}

#[test]
fn debiasing_comes_before_whitening() {
    let raw = [0u8, 1, 1, 0, 1, 1, 0, 0, 1, 0];
    let out = process_bits(&raw, true, true);
    assert_eq!(out.bits, hash_randomness(&von_neumann_debias(&raw)));
    assert_ne!(out.bits, von_neumann_debias(&hash_randomness(&raw)));
    assert_eq!(out.debiased, Some(StageSummary { length: 3, ones: 2 }));
    assert_eq!(out.whitened, Some(out.after));
    assert_eq!(out.bits.len(), 256);
}

#[test]
fn no_raw_bits_give_no_bits_whatever_the_stages() {
    for (debiasing, hashing) in [(false, false), (true, false), (false, true), (true, true)] {
        let out = process_bits(&[], debiasing, hashing);
        assert_eq!(out.bits, Vec::<u8>::new());
        assert_eq!(out.before, StageSummary { length: 0, ones: 0 });
        assert_eq!(out.after, StageSummary { length: 0, ones: 0 });
        assert!(!out.fell_back);
        assert_eq!(out.debiased.is_some(), debiasing);
        assert_eq!(out.whitened.is_some(), hashing);
    }
}

#[test]
fn summarizes_length_and_ones() {
    assert_eq!(summarize(&[]), StageSummary { length: 0, ones: 0 });
    assert_eq!(summarize(&[1, 1, 0, 1]), StageSummary { length: 4, ones: 3 });
}

#[test]
fn whole_bytes_are_stored_packed() {
    let bits = [1u8, 0, 1, 0, 1, 0, 1, 0, 1, 1, 1, 1, 0, 0, 0, 0];
    let out = encode_output(&bits);
    assert_eq!(out.form, OutputForm::Packed);
    assert_eq!(out.bytes, vec![0x55, 0x0F]);
    assert_eq!(out.bytes, bits_to_bytes(&bits));
}

#[test]
fn other_lengths_are_stored_as_text() {
    let out = encode_output(&[1, 0, 1]);
    assert_eq!(out.form, OutputForm::Text);
    assert_eq!(out.bytes, b"101".to_vec());
    let long = encode_output(&[0, 0, 0, 0, 0, 0, 0, 0, 1]);
    assert_eq!(long.form, OutputForm::Text);
    assert_eq!(long.bytes, b"000000001".to_vec());
}

#[test]
fn no_bits_are_stored_as_no_bytes() {
    let out = encode_output(&[]);
    assert_eq!(out.form, OutputForm::Packed);
    assert_eq!(out.bytes, Vec::<u8>::new());
}

#[test]
fn whitened_bits_are_stored_as_32_bytes() {
    let out = process_bits(&[1, 0, 1], false, true);
    let stored = encode_output(&out.bits);
    assert_eq!(stored.form, OutputForm::Packed);
    assert_eq!(stored.bytes.len(), 32);
}
