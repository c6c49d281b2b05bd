use phpfixer::fixer::{Fixer, FixerTestRunner};
use phpfixer::fixers::indent_bracket_body::IndentBracketBodyFixer;

#[test]
fn it_does_nothing_if_already_indented() {
    let mut r = FixerTestRunner::new();
    r.with_fixer(Fixer::IndentBracketBody(IndentBracketBodyFixer {}));
    r.with_input("<?php\nclass Test {\n    use SomeTrait;\n    function sample()\n    {\n        return 1;\n    }\n}\n".as_bytes().to_vec());
    r.with_expected_output("<?php\nclass Test {\n    use SomeTrait;\n    function sample()\n    {\n        return 1;\n    }\n}\n".as_bytes().to_vec());
    assert!(r.check());
}
#[test]
fn it_idents_if_not_indented() {
    let mut r = FixerTestRunner::new();
    r.with_fixer(Fixer::IndentBracketBody(IndentBracketBodyFixer {}));
    r.with_input("<?php\nclass Test {\nuse SomeTrait;\nfunction sample()\n{\n}\n}\n".as_bytes().to_vec());
    r.with_expected_output("<?php\nclass Test {\n    use SomeTrait;\n    function sample()\n    {\n    }\n}\n".as_bytes().to_vec());
    assert!(r.check());
}
#[test]
fn it_removes_idents_when_it_is_over_indented() {
    let mut r = FixerTestRunner::new();
    r.with_fixer(Fixer::IndentBracketBody(IndentBracketBodyFixer {}));
    r.with_input("<?php\nclass Test {\n        function sample1()\n                {\n                function sample2()\n                            {\n                                          }\n          }\n}\n".as_bytes().to_vec());
    r.with_expected_output("<?php\nclass Test {\n    function sample1()\n    {\n        function sample2()\n        {\n        }\n    }\n}\n".as_bytes().to_vec());
    assert!(r.check());
}
#[test]
fn it_adds_idents_when_it_is_under_indented() {
    let mut r = FixerTestRunner::new();
    r.with_fixer(Fixer::IndentBracketBody(IndentBracketBodyFixer {}));
    r.with_input("<?php\nclass Test {\n               function sample1()\n    {\n                         function sample2()\n         {\n            }\n              }\n}\n".as_bytes().to_vec());
    r.with_expected_output("<?php\nclass Test {\n    function sample1()\n    {\n        function sample2()\n        {\n        }\n    }\n}\n".as_bytes().to_vec());
    assert!(r.check());
}
#[test]
fn it_adds_idents_when_it_is_under_indented_by_1() {
    let mut r = FixerTestRunner::new();
    r.with_fixer(Fixer::IndentBracketBody(IndentBracketBodyFixer {}));
    r.with_input("<?php\nclass Test {\n    function sample()\n   {\n    }\n}\n".as_bytes().to_vec());
    r.with_expected_output("<?php\nclass Test {\n    function sample()\n    {\n    }\n}\n".as_bytes().to_vec());
    assert!(r.check());
}
#[test]
fn it_fix_idents_when_it_is_crazy_indented() {
    let mut r = FixerTestRunner::new();
    r.with_fixer(Fixer::IndentBracketBody(IndentBracketBodyFixer {}));
    r.with_input("<?php\nclass Test {\n        use SomeTrait;\n                function sample()\n           {\nfunction sample2()\n       {\n                                        function sample3()\n           {\n                                                          }\n                                            }\n    }\n}\n".as_bytes().to_vec());
    r.with_expected_output("<?php\nclass Test {\n    use SomeTrait;\n    function sample()\n    {\n        function sample2()\n        {\n            function sample3()\n            {\n            }\n        }\n    }\n}\n".as_bytes().to_vec());
    assert!(r.check());
}
#[test]
fn indent_bracket_body_fixer_it_idents_even_if_everything_is_inlined_in_a_single_line() {
    let mut r = FixerTestRunner::new();
    r.with_fixer(Fixer::IndentBracketBody(IndentBracketBodyFixer {}));
    r.with_input("<?php\nclass Test { use SomeTrait; function sample() {} }\n".as_bytes().to_vec());
    r.with_expected_output("<?php\nclass Test {\n    use SomeTrait;\n    function sample() {\n    }\n}\n".as_bytes().to_vec());
    assert!(r.check());
}
#[test]
fn indent_bracket_body_fixer_it_can_ident_chaotic_indentations() {
    let mut r = FixerTestRunner::new();
    r.with_fixer(Fixer::IndentBracketBody(IndentBracketBodyFixer {}));
    r.with_input("<?php\nclass Test { use SomeTraitA;\nuse SomeTraitB;\n        function sampleA() {}\nfunction sampleB() {}  function sampleC() {}\n}\n".as_bytes().to_vec());
    r.with_expected_output("<?php\nclass Test {\n    use SomeTraitA;\n    use SomeTraitB;\n    function sampleA() {\n    }\n    function sampleB() {\n    }\n    function sampleC() {\n    }\n}\n".as_bytes().to_vec());
    assert!(r.check());
}
#[test]
fn indent_bracket_body_fixer_it_can_ident_anonymous_function() {
    let mut r = FixerTestRunner::new();
    r.with_fixer(Fixer::IndentBracketBody(IndentBracketBodyFixer {}));
    r.with_input("<?php\nclass Test\n{\nfunction sample()\n{\nfunction () {\nreturn function () {\nreturn 3;\n};\n};\n}\n}\n".as_bytes().to_vec());
    r.with_expected_output("<?php\nclass Test\n{\n    function sample()\n    {\n        function () {\n            return function () {\n                return 3;\n            };\n        };\n    }\n}\n".as_bytes().to_vec());
    assert!(r.check());
}
#[test]
fn indent_bracket_body_fixer_it_can_ident_anonymous_function_when_assigned_to_variables() {
    let mut r = FixerTestRunner::new();
    r.with_fixer(Fixer::IndentBracketBody(IndentBracketBodyFixer {}));
    r.with_input("<?php\nclass Test\n{\nfunction sample()\n{\n$test = function () {\n$test = 1;\n};\n}\n}\n".as_bytes().to_vec());
    r.with_expected_output("<?php\nclass Test\n{\n    function sample()\n    {\n        $test = function () {\n            $test = 1;\n        };\n    }\n}\n".as_bytes().to_vec());
    assert!(r.check());
}
#[test]
fn indent_bracket_body_fixer_it_can_ident_for_if() {
    let mut r = FixerTestRunner::new();
    r.with_fixer(Fixer::IndentBracketBody(IndentBracketBodyFixer {}));
    r.with_input("<?php\nclass Test {\nfunction sample() {\nfor (;;) {\nif ($i % 2 === 0) {\n$sample = 1;\n}}}}\n".as_bytes().to_vec());
    r.with_expected_output("<?php\nclass Test {\n    function sample() {\n        for (;;) {\n            if ($i % 2 === 0) {\n                $sample = 1;\n            }\n        }\n    }\n}\n".as_bytes().to_vec());
    assert!(r.check());
}
#[test]
fn indent_bracket_body_fixer_it_can_ident_match_block() {
    let mut r = FixerTestRunner::new();
    r.with_fixer(Fixer::IndentBracketBody(IndentBracketBodyFixer {}));
    r.with_input("<?php\nclass Test\n{\nfunction sample()\n{\nmatch (true) {\ntrue => 1,\nfalse => match (false) {\ntrue => 2,\nfalse => 3,\n},\n};\n}\n}\n".as_bytes().to_vec());
    r.with_expected_output("<?php\nclass Test\n{\n    function sample()\n    {\n        match (true) {\n            true => 1,\n            false => match (false) {\n                true => 2,\n                false => 3,\n            },\n        };\n    }\n}\n".as_bytes().to_vec());
    assert!(r.check());
}
#[test]
fn indent_bracket_body_fixer_it_can_ident_nested_functions() {
    let mut r = FixerTestRunner::new();
    r.with_fixer(Fixer::IndentBracketBody(IndentBracketBodyFixer {}));
    r.with_input("<?php\nclass Test {\nfunction sampleA()\n{\n$a = 1;\nfunction sampleB()\n{\n$b = 2;\nfunction sampleC()\n{\n$c = 3;\n}\n}\n}\n}\n".as_bytes().to_vec());
    r.with_expected_output("<?php\nclass Test {\n    function sampleA()\n    {\n        $a = 1;\n        function sampleB()\n        {\n            $b = 2;\n            function sampleC()\n            {\n                $c = 3;\n            }\n        }\n    }\n}\n".as_bytes().to_vec());
    assert!(r.check());
}
#[test]
fn indent_bracket_body_fixer_it_does_not_destroy_lambda_functions() {
    let mut r = FixerTestRunner::new();
    r.with_fixer(Fixer::IndentBracketBody(IndentBracketBodyFixer {}));
    r.with_input("<?php\nclass Test {\nfunction sample() {\n$example = fn () => true;\n}\n}\n".as_bytes().to_vec());
    r.with_expected_output("<?php\nclass Test {\n    function sample() {\n        $example = fn () => true;\n    }\n}\n".as_bytes().to_vec());
    assert!(r.check());
}
