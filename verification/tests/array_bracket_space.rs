use phpfixer::fixer::{Fixer, FixerTestRunner};
use phpfixer::fixers::array_bracket_space::ArrayBracketSpaceFixer;

#[test]
fn it_add_spaces_around_brackets_and_inner_elements() {
    let mut r = FixerTestRunner::new();
    r.with_fixer(Fixer::ArrayBracketSpace(ArrayBracketSpaceFixer {}));
    r.with_input("<?php\n$value = [1,2,3];\n".as_bytes().to_vec());
    r.with_expected_output("<?php\n$value = [ 1, 2, 3 ];\n".as_bytes().to_vec());
    assert!(r.check());
}
#[test]
fn it_add_space_within_nested_arrays() {
    let mut r = FixerTestRunner::new();
    r.with_fixer(Fixer::ArrayBracketSpace(ArrayBracketSpaceFixer {}));
    r.with_input("<?php\n$value = [1,2,[a,b,c],3];\n".as_bytes().to_vec());
    r.with_expected_output("<?php\n$value = [ 1, 2, [ a, b, c ], 3 ];\n".as_bytes().to_vec());
    assert!(r.check());
}
#[test]
fn it_fix_array_that_contains_wierd_spaces_from_start() {
    let mut r = FixerTestRunner::new();
    r.with_fixer(Fixer::ArrayBracketSpace(ArrayBracketSpaceFixer {}));
    r.with_input("<?php\n$value = [    1,2  ,[a,  b, c\n], 3    ];\n".as_bytes().to_vec());
    r.with_expected_output("<?php\n$value = [ 1, 2, [ a, b, c ], 3 ];\n".as_bytes().to_vec());
    assert!(r.check());
}
#[test]
fn it_does_not_add_spaces_within_blank_arrays() {
    let mut r = FixerTestRunner::new();
    r.with_fixer(Fixer::ArrayBracketSpace(ArrayBracketSpaceFixer {}));
    r.with_input("<?php $value = [];".as_bytes().to_vec());
    r.with_expected_output("<?php $value = [];".as_bytes().to_vec());
    assert!(r.check());
}
