use phpfixer::fixer::{Fixer, FixerTestRunner, run_fixer};
use phpfixer::fixers::indent_bracket_body::IndentBracketBodyFixer;
use phpfixer::fixers::indent_chained_call::IndentChainedCallFixer;

#[test]
fn it_breaks_chain_when_there_are_more_than_3_members_in_it() {
    let mut r = FixerTestRunner::new();
    r.with_fixer(Fixer::IndentBracketBody(IndentBracketBodyFixer {}));
    r.with_fixer(Fixer::IndentChainedCall(IndentChainedCallFixer {}));
    r.with_input("<?php\nclass Test {\nfunction sample() {\nstatic::string()->a()->b()->c()->d()->e();\n}\n}\n".as_bytes().to_vec());
    r.with_expected_output("<?php\nclass Test {\n    function sample() {\n        static::string()\n            ->a()\n            ->b()\n            ->c()\n            ->d()\n            ->e();\n    }\n}\n".as_bytes().to_vec());
    assert!(r.check());
}
#[test]
fn three_link_chain_is_reflowed_one_link_per_line() {
    let out = run_fixer("<?php\n$x = a()->b()->c();\n".as_bytes().to_vec(), Fixer::IndentChainedCall(IndentChainedCallFixer {})).unwrap();
    assert_eq!(String::from_utf8(out).unwrap(), "<?php\n$x = a()\n        ->b()\n        ->c();\n".to_string());
}
#[test]
fn two_link_chain_on_separate_lines_is_collapsed() {
    let out = run_fixer("<?php\n$x = a()\n    ->b();\n".as_bytes().to_vec(), Fixer::IndentChainedCall(IndentChainedCallFixer {})).unwrap();
    assert_eq!(String::from_utf8(out).unwrap(), "<?php\n$x = a()->b();\n".to_string());
}
#[test]
fn two_link_chain_on_one_line_is_left_alone() {
    let out = run_fixer("<?php\n$x = a()->b();\n".as_bytes().to_vec(), Fixer::IndentChainedCall(IndentChainedCallFixer {})).unwrap();
    assert_eq!(String::from_utf8(out).unwrap(), "<?php\n$x = a()->b();\n".to_string());
}
