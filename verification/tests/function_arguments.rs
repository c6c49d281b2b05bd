use phpfixer::fixer::{Fixer, run_fixer};
use phpfixer::fixers::function_arguments_space::FunctionArgumentsSpaceFixer;

#[test]
fn it_add_spaces_between_each_argument() {
    let out = run_fixer("<?php\nglobal_function(1,2,3,   4, 5);\n".as_bytes().to_vec(), Fixer::FunctionArgumentsSpace(FunctionArgumentsSpaceFixer {})).unwrap();
    assert_eq!(out, "<?php\nglobal_function(1, 2, 3, 4, 5);\n".as_bytes().to_vec());
}
