use phpfixer::fixer::{Fixer, FixerTestRunner};
use phpfixer::fixers::declare_directive_existence::DeclareDirectiveExistenceFixer;
use phpfixer::fixers::declare_directive_space::DeclareDirectiveSpaceFixer;

#[test]
fn it_append_the_statement_if_missing() {
    let mut r = FixerTestRunner::new();
    r.with_fixer(Fixer::DeclareDirectiveExistence(DeclareDirectiveExistenceFixer {}));
    r.with_input("<?php".as_bytes().to_vec());
    r.with_expected_output("<?php declare(strict_types = 1);".as_bytes().to_vec());
    assert!(r.check());
}
#[test]
fn it_does_nothing_if_directive_is_already_defined() {
    let mut r = FixerTestRunner::new();
    r.with_fixer(Fixer::DeclareDirectiveExistence(DeclareDirectiveExistenceFixer {}));
    r.with_input("<?php declare(strict_types = 0);".as_bytes().to_vec());
    r.with_expected_output("<?php declare(strict_types = 0);".as_bytes().to_vec());
    assert!(r.check());
}
#[test]
fn it_add_the_directive_if_first_token_is_not_declare() {
    let mut r = FixerTestRunner::new();
    r.with_fixer(Fixer::DeclareDirectiveExistence(DeclareDirectiveExistenceFixer {}));
    r.with_input("<?php\nnamespace App;\n".as_bytes().to_vec());
    r.with_expected_output("<?php declare(strict_types = 1);\nnamespace App;\n".as_bytes().to_vec());
    assert!(r.check());
}
#[test]
fn it_add_space_between_equal_token() {
    let mut r = FixerTestRunner::new();
    r.with_fixer(Fixer::DeclareDirectiveSpace(DeclareDirectiveSpaceFixer {}));
    r.with_input("<?php\ndeclare(strict_types=1);\n".as_bytes().to_vec());
    r.with_expected_output("<?php\ndeclare(strict_types = 1);\n".as_bytes().to_vec());
    assert!(r.check());
}
#[test]
fn it_keeps_the_original_integer_value() {
    let mut r = FixerTestRunner::new();
    r.with_fixer(Fixer::DeclareDirectiveSpace(DeclareDirectiveSpaceFixer {}));
    r.with_input("<?php\ndeclare(strict_types=0);\n".as_bytes().to_vec());
    r.with_expected_output("<?php\ndeclare(strict_types = 0);\n".as_bytes().to_vec());
    assert!(r.check());
}
#[test]
fn it_removes_spaces_between_open_close_parenthesis() {
    let mut r = FixerTestRunner::new();
    r.with_fixer(Fixer::DeclareDirectiveSpace(DeclareDirectiveSpaceFixer {}));
    r.with_input("<?php\ndeclare( strict_types=1 );\n".as_bytes().to_vec());
    r.with_expected_output("<?php\ndeclare(strict_types = 1);\n".as_bytes().to_vec());
    assert!(r.check());
}
#[test]
fn it_removes_excessive_spaces() {
    let mut r = FixerTestRunner::new();
    r.with_fixer(Fixer::DeclareDirectiveSpace(DeclareDirectiveSpaceFixer {}));
    r.with_input("<?php\ndeclare(     strict_types      =        1      );\n".as_bytes().to_vec());
    r.with_expected_output("<?php\ndeclare(strict_types = 1);\n".as_bytes().to_vec());
    assert!(r.check());
}
