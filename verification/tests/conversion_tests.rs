use move_bytecode_converter::conversion::{Conversion, Stage, Step};
use move_bytecode_converter::error::ConvertError;
use move_bytecode_converter::format::BytecodeFormat;
use move_bytecode_converter::source::InputSource;

fn begin(path: &str, dir: &str, verify: bool) -> Conversion {
    match InputSource::new(path.to_string()) {
        Ok(source) => source.convert(dir, verify),
        Err(e) => panic!("{} was rejected: {:?}", path, e),
    }
}

fn steps(path: &str, verify: bool, outcomes: &[bool]) -> Vec<Step> {
    let mut conversion = begin(path, "/out", verify);
    let mut seen = vec![conversion.next_step()];
    for outcome in outcomes {
        conversion.advance(*outcome);
        seen.push(conversion.next_step());
    }
    seen
}

#[test]
fn verified_conversion_of_a_binary_module() {
    let mut conversion = begin("module.mv", "/out", true);
    assert_eq!(conversion.output_path(), "/out/module.json");
    assert_eq!(conversion.stage(), Stage::Unresolved);
    assert_eq!(conversion.next_step(), Step::Decode(BytecodeFormat::Mv));
    assert_eq!(conversion.result(), None);
    conversion.advance(true);
    assert_eq!(conversion.stage(), Stage::Decoded);
    assert_eq!(conversion.next_step(), Step::Verify);
    conversion.advance(true);
    assert_eq!(conversion.stage(), Stage::Verified);
    assert_eq!(conversion.next_step(), Step::Encode(BytecodeFormat::Json));
    conversion.advance(true);
    assert_eq!(conversion.stage(), Stage::Encoded);
    assert_eq!(conversion.next_step(), Step::Write);
    assert_eq!(conversion.result(), None);
    conversion.advance(true);
    assert_eq!(conversion.stage(), Stage::Written);
    assert_eq!(conversion.next_step(), Step::Finish(Ok(())));
    assert_eq!(conversion.result(), Some(Ok(())));
    assert_eq!(conversion.output_path(), "/out/module.json");
}

#[test]
fn converting_the_output_leads_back() {
    let mut back = begin("/out/module.json", "/orig", true);
    assert_eq!(back.output_path(), "/orig/module.mv");
    assert_eq!(back.next_step(), Step::Decode(BytecodeFormat::Json));
    back.advance(true);
    back.advance(true);
    assert_eq!(back.next_step(), Step::Encode(BytecodeFormat::Mv));
}

#[test]
fn unverified_conversion_skips_verification() {
    let seen = steps("module.json", false, &[true, true, true]);
    assert_eq!(
        seen,
        vec![
            Step::Decode(BytecodeFormat::Json),
            Step::Encode(BytecodeFormat::Mv),
            Step::Write,
            Step::Finish(Ok(())),
        ]
    );
    let mut conversion = begin("module.json", "/out", false);
    conversion.advance(true);
    assert_eq!(conversion.stage(), Stage::Skipped);
}

#[test]
fn failed_verification_writes_nothing() {
    let seen = steps("module.mv", true, &[true, false, true, true, true]);
    assert!(!seen.contains(&Step::Write));
    assert_eq!(seen[2], Step::Finish(Err(ConvertError::Verify)));
    assert_eq!(seen[5], Step::Finish(Err(ConvertError::Verify)));
}

#[test]
fn invalid_module_is_written_without_verification() {
    let seen = steps("module.mv", false, &[true, true, true]);
    assert!(!seen.contains(&Step::Verify));
    assert!(seen.contains(&Step::Write));
    assert_eq!(seen[3], Step::Finish(Ok(())));
}

#[test]
fn each_step_fails_with_its_own_error() {
    let last = |verify: bool, outcomes: &[bool]| steps("m.mv", verify, outcomes)[outcomes.len()];
    assert_eq!(last(true, &[false]), Step::Finish(Err(ConvertError::Decode)));
    assert_eq!(last(true, &[true, false]), Step::Finish(Err(ConvertError::Verify)));
    assert_eq!(last(true, &[true, true, false]), Step::Finish(Err(ConvertError::Encode)));
    assert_eq!(last(true, &[true, true, true, false]), Step::Finish(Err(ConvertError::Write)));
    assert_eq!(last(false, &[false]), Step::Finish(Err(ConvertError::Decode)));
    assert_eq!(last(false, &[true, false]), Step::Finish(Err(ConvertError::Encode)));
    assert_eq!(last(false, &[true, true, false]), Step::Finish(Err(ConvertError::Write)));
}

#[test]
fn a_finished_conversion_stays_finished() {
    let mut failed = begin("m.json", "/out", true);
    failed.advance(false);
    assert_eq!(failed.stage(), Stage::Failed(ConvertError::Decode));
    failed.advance(true);
    failed.advance(true);
    assert_eq!(failed.stage(), Stage::Failed(ConvertError::Decode));
    assert_eq!(failed.result(), Some(Err(ConvertError::Decode)));
    let mut done = begin("m.json", "/out", false);
    for _ in 0..3 {
        done.advance(true);
    }
    assert_eq!(done.result(), Some(Ok(())));
    done.advance(false);
    assert_eq!(done.stage(), Stage::Written);
    assert_eq!(done.result(), Some(Ok(())));
}

#[test]
fn write_is_due_at_most_once() {
    for verify in [true, false] {
        for bits in 0..64u32 {
            let outcomes: Vec<bool> = (0..6).map(|i| bits & (1 << i) != 0).collect();
            let seen = steps("m.mv", verify, &outcomes);
            let writes = seen.iter().filter(|s| **s == Step::Write).count();
            assert!(writes <= 1);
            let all_before = outcomes[..if verify { 3 } else { 2 }].iter().all(|b| *b);
            assert_eq!(writes == 1, all_before);
        }
    }
}

#[test]
fn output_path_does_not_depend_on_verification() {
    let with = begin("foo.mv", "D", true);
    let without = begin("foo.mv", "D", false);
    assert_eq!(with.output_path(), "D/foo.json");
    assert_eq!(without.output_path(), "D/foo.json");
    assert_eq!(begin("foo.json", "D", true).output_path(), "D/foo.mv");
    assert_eq!(begin("foo.json", "D", false).output_path(), "D/foo.mv");
}
