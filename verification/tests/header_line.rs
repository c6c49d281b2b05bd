use phpfixer::fixer::{Fixer, FixerTestRunner};
use phpfixer::fixers::header_line::HeaderLineFixer;

#[test]
fn it_adds_new_line_where_necessary() {
    let mut r = FixerTestRunner::new();
    r.with_fixer(Fixer::HeaderLine(HeaderLineFixer {}));
    r.with_input("<?php\ndeclare(strict_types = 1);\nnamespace App\\Console;\nuse App\\One;\nuse App\\Two;\nclass Example {}\n".as_bytes().to_vec());
    r.with_expected_output("<?php\n\ndeclare(strict_types = 1);\n\nnamespace App\\Console;\n\nuse App\\One;\nuse App\\Two;\n\nclass Example {}\n".as_bytes().to_vec());
    assert!(r.check());
}
#[test]
fn it_correctly_fixes_statements_defined_on_the_same_line() {
    let mut r = FixerTestRunner::new();
    r.with_fixer(Fixer::HeaderLine(HeaderLineFixer {}));
    r.with_input("<?phpdeclare(strict_types = 1);namespace App\\Console;use App\\One;use App\\Two;class Example {}\n".as_bytes().to_vec());
    r.with_expected_output("<?php\n\ndeclare(strict_types = 1);\n\nnamespace App\\Console;\n\nuse App\\One;\nuse App\\Two;\n\nclass Example {}\n".as_bytes().to_vec());
    assert!(r.check());
}
#[test]
fn it_removes_leading_spaces_from_opening_php_tag() {
    let mut r = FixerTestRunner::new();
    r.with_fixer(Fixer::HeaderLine(HeaderLineFixer {}));
    r.with_input("    <?php\n".as_bytes().to_vec());
    r.with_expected_output("<?php\n".as_bytes().to_vec());
    assert!(r.check());
}
#[test]
fn it_works_with_when_using_alias() {
    let mut r = FixerTestRunner::new();
    r.with_fixer(Fixer::HeaderLine(HeaderLineFixer {}));
    r.with_input("<?phpuse App\\One as Um;use App\\Two as Dois;\n".as_bytes().to_vec());
    r.with_expected_output("<?php\n\nuse App\\One as Um;\nuse App\\Two as Dois;\n".as_bytes().to_vec());
    assert!(r.check());
}
#[test]
fn it_removes_leading_white_spaces() {
    let mut r = FixerTestRunner::new();
    r.with_fixer(Fixer::HeaderLine(HeaderLineFixer {}));
    r.with_input("<?php use App\\One;                    use App\\Two;\n".as_bytes().to_vec());
    r.with_expected_output("<?php\n\nuse App\\One;\nuse App\\Two;\n".as_bytes().to_vec());
    assert!(r.check());
}
#[test]
fn it_separates_functions_and_expressions() {
    let mut r = FixerTestRunner::new();
    r.with_fixer(Fixer::HeaderLine(HeaderLineFixer {}));
    r.with_input("<?php\nfunction a() {}\nfunction b() {}\n$a = 123;\n$b = 123;\n".as_bytes().to_vec());
    r.with_expected_output("<?php\n\nfunction a() {}\n\nfunction b() {}\n\n$a = 123;\n$b = 123;\n".as_bytes().to_vec());
    assert!(r.check());
}

