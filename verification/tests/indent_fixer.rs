use phpfixer::fixer::{Fixer, run_fixer};
use phpfixer::fixers::indent::IdentFixer;

#[test]
fn indent_fixer_it_does_nothing_if_already_indented() {
    let out = run_fixer("<?php\nclass Test {\n    use SomeTrait;\n    function sample()\n    {\n        return 1;\n    }\n}\n".as_bytes().to_vec(), Fixer::Ident(IdentFixer {})).unwrap();
    assert_eq!(String::from_utf8(out).unwrap(), "<?php\nclass Test {\n    use SomeTrait;\n    function sample()\n    {\n        return 1;\n    }\n}\n".to_string());
}
#[test]
fn indent_fixer_it_idents_if_not_indented() {
    let out = run_fixer("<?php\nclass Test {\nuse SomeTrait;\nfunction sample()\n{\n}\n}\n".as_bytes().to_vec(), Fixer::Ident(IdentFixer {})).unwrap();
    assert_eq!(String::from_utf8(out).unwrap(), "<?php\nclass Test {\n    use SomeTrait;\n    function sample()\n    {\n    }\n}\n".to_string());
}
#[test]
fn indent_fixer_it_idents_even_if_everything_is_inlined_in_a_single_line() {
    let out = run_fixer("<?php\nclass Test { use SomeTrait; function sample() {} }\n".as_bytes().to_vec(), Fixer::Ident(IdentFixer {})).unwrap();
    assert_eq!(String::from_utf8(out).unwrap(), "<?php\nclass Test {\n    use SomeTrait;\n    function sample() {\n    }\n}\n".to_string());
}
#[test]
fn indent_fixer_it_can_ident_chaotic_indentations() {
    let out = run_fixer("<?php\nclass Test { use SomeTraitA;\nuse SomeTraitB;\n        function sampleA() {}\nfunction sampleB() {}  function sampleC() {}\n}\n".as_bytes().to_vec(), Fixer::Ident(IdentFixer {})).unwrap();
    assert_eq!(String::from_utf8(out).unwrap(), "<?php\nclass Test {\n    use SomeTraitA;\n    use SomeTraitB;\n    function sampleA() {\n    }\n    function sampleB() {\n    }\n    function sampleC() {\n    }\n}\n".to_string());
}
#[test]
fn indent_fixer_it_can_ident_anonymous_function() {
    let out = run_fixer("<?php\nclass Test\n{\nfunction sample()\n{\nfunction () {\nreturn function () {\nreturn 3;\n};\n};\n}\n}\n".as_bytes().to_vec(), Fixer::Ident(IdentFixer {})).unwrap();
    assert_eq!(String::from_utf8(out).unwrap(), "<?php\nclass Test\n{\n    function sample()\n    {\n        function () {\n            return function () {\n                return 3;\n            };\n        };\n    }\n}\n".to_string());
}
#[test]
fn indent_fixer_it_can_ident_anonymous_function_when_assigned_to_variables() {
    let out = run_fixer("<?php\nclass Test\n{\nfunction sample()\n{\n$test = function () {\n$test = 1;\n};\n}\n}\n".as_bytes().to_vec(), Fixer::Ident(IdentFixer {})).unwrap();
    assert_eq!(String::from_utf8(out).unwrap(), "<?php\nclass Test\n{\n    function sample()\n    {\n        $test = function () {\n            $test = 1;\n        };\n    }\n}\n".to_string());
}
#[test]
fn indent_fixer_it_can_ident_for_if() {
    let out = run_fixer("<?php\nclass Test {\nfunction sample() {\nfor (;;) {\nif ($i % 2 === 0) {\n$sample = 1;\n}}}}\n".as_bytes().to_vec(), Fixer::Ident(IdentFixer {})).unwrap();
    assert_eq!(String::from_utf8(out).unwrap(), "<?php\nclass Test {\n    function sample() {\n        for (;;) {\n            if ($i % 2 === 0) {\n                $sample = 1;\n            }\n        }\n    }\n}\n".to_string());
}
#[test]
fn indent_fixer_it_can_ident_match_block() {
    let out = run_fixer("<?php\nclass Test\n{\nfunction sample()\n{\nmatch (true) {\ntrue => 1,\nfalse => match (false) {\ntrue => 2,\nfalse => 3,\n},\n};\n}\n}\n".as_bytes().to_vec(), Fixer::Ident(IdentFixer {})).unwrap();
    assert_eq!(String::from_utf8(out).unwrap(), "<?php\nclass Test\n{\n    function sample()\n    {\n        match (true) {\n            true => 1,\n            false => match (false) {\n                true => 2,\n                false => 3,\n            },\n        };\n    }\n}\n".to_string());
}
#[test]
fn indent_fixer_it_can_ident_nested_functions() {
    let out = run_fixer("<?php\nclass Test {\nfunction sampleA()\n{\n$a = 1;\nfunction sampleB()\n{\n$b = 2;\nfunction sampleC()\n{\n$c = 3;\n}\n}\n}\n}\n".as_bytes().to_vec(), Fixer::Ident(IdentFixer {})).unwrap();
    assert_eq!(String::from_utf8(out).unwrap(), "<?php\nclass Test {\n    function sampleA()\n    {\n        $a = 1;\n        function sampleB()\n        {\n            $b = 2;\n            function sampleC()\n            {\n                $c = 3;\n            }\n        }\n    }\n}\n".to_string());
}
#[test]
fn indent_fixer_it_does_not_destroy_lambda_functions() {
    let out = run_fixer("<?php\nclass Test {\nfunction sample() {\n$example = fn () => true;\n}\n}\n".as_bytes().to_vec(), Fixer::Ident(IdentFixer {})).unwrap();
    assert_eq!(String::from_utf8(out).unwrap(), "<?php\nclass Test {\n    function sample() {\n        $example = fn () => true;\n    }\n}\n".to_string());
}
