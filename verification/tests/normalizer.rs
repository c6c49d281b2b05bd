use phpfixer::fixer::{Fixer, FixerTestRunner};
use phpfixer::fixers::normalizer::NormalizerFixer;

#[test]
fn operators_are_left_with_white_space_before_and_after() {
    let mut r = FixerTestRunner::new();
    r.with_fixer(Fixer::Normalizer(NormalizerFixer {}));
    r.with_input("<?php\n$a=1;$a+=1;$a-=1;$a*=1;$a/=1;$a%=1;\n$b==1;$b===1;$b!=1;$b<>1;$b!==1;$b>1;$b<1;$b>=1;$b<=1;$b<=>1;\n$c+1;$c-1;$c*1;$c**1;$c/1;$c%1;\n$d    and $d  or  $d    xor   $d    && $d   ||$d   ! $d  ;\n$e.='1';$e.$e;\n$f?:1;$f??1;\n$g=1?1:2;\n$h++;$h--;++$h;--$h;\n$i>>1;$i<<1;$i&1;$i|1;$i^1;$i>>=1;$i<<=1;$i&=1;$i|=1;$i^=1;\n".as_bytes().to_vec());
    r.with_expected_output("<?php\n$a = 1;\n$a += 1;\n$a -= 1;\n$a *= 1;\n$a /= 1;\n$a %= 1;\n$b == 1;\n$b === 1;\n$b != 1;\n$b <> 1;\n$b !== 1;\n$b > 1;\n$b < 1;\n$b >= 1;\n$b <= 1;\n$b <=> 1;\n$c + 1;\n$c - 1;\n$c * 1;\n$c ** 1;\n$c / 1;\n$c % 1;\n$d and $d or $d xor $d && $d || $d ! $d;\n$e .= '1';\n$e . $e;\n$f ?: 1;\n$f ?? 1;\n$g = 1 ? 1 : 2;\n$h++;\n$h--;\n++$h;\n--$h;\n$i >> 1;\n$i << 1;\n$i & 1;\n$i | 1;\n$i ^ 1;\n$i >>= 1;\n$i <<= 1;\n$i &= 1;\n$i |= 1;\n$i ^= 1;\n".as_bytes().to_vec());
    assert!(r.check());
}
#[test]
fn function_name_space_is_normalized() {
    let mut r = FixerTestRunner::new();
    r.with_fixer(Fixer::Normalizer(NormalizerFixer {}));
    r.with_input("<?php\nfunction     name() {}\n".as_bytes().to_vec());
    r.with_expected_output("<?php\nfunction name()\n{\n}\n".as_bytes().to_vec());
    assert!(r.check());
}
#[test]
fn class_name_space_is_normalized() {
    let mut r = FixerTestRunner::new();
    r.with_fixer(Fixer::Normalizer(NormalizerFixer {}));
    r.with_input("<?php\nclass    Test     {}\n".as_bytes().to_vec());
    r.with_expected_output("<?php\nclass Test\n{\n}\n".as_bytes().to_vec());
    assert!(r.check());
}
#[test]
fn abstract_class_is_normalized() {
    let mut r = FixerTestRunner::new();
    r.with_fixer(Fixer::Normalizer(NormalizerFixer {}));
    r.with_input("<?php\nabstract      class    Test {}\n".as_bytes().to_vec());
    r.with_expected_output("<?php\nabstract class Test\n{\n}\n".as_bytes().to_vec());
    assert!(r.check());
}
#[test]
fn class_extends_and_implements_space_is_normalized() {
    let mut r = FixerTestRunner::new();
    r.with_fixer(Fixer::Normalizer(NormalizerFixer {}));
    r.with_input("<?php\nclass    Test  extends      A    implements     B{}\n".as_bytes().to_vec());
    r.with_expected_output("<?php\nclass Test extends A implements B\n{\n}\n".as_bytes().to_vec());
    assert!(r.check());
}
#[test]
fn array_brackets_are_normalized() {
    let mut r = FixerTestRunner::new();
    r.with_fixer(Fixer::Normalizer(NormalizerFixer {}));
    r.with_input("<?php\n$array=[   1 ,2, 3    ];\n".as_bytes().to_vec());
    r.with_expected_output("<?php\n$array = [\n1,\n2,\n3\n];\n".as_bytes().to_vec());
    assert!(r.check());
}
#[test]
fn array_access_brackets_are_normalized() {
    let mut r = FixerTestRunner::new();
    r.with_fixer(Fixer::Normalizer(NormalizerFixer {}));
    r.with_input("<?php\n$variable [$a] =[];\n$string ['a'] = [];\n$escapedString    [ \"a\"   ] =[];\n$expression  [1+2] =[     ];\n$this->access [  'a'  ]\n".as_bytes().to_vec());
    r.with_expected_output("<?php\n$variable[ $a ] = [];\n$string[ 'a' ] = [];\n$escapedString[ \"a\" ] = [];\n$expression[ 1 + 2 ] = [];\n$this\n->access[ 'a' ]\n".as_bytes().to_vec());
    assert!(r.check());
}
#[test]
fn chained_calls_are_broken_into_new_lines() {
    let mut r = FixerTestRunner::new();
    r.with_fixer(Fixer::Normalizer(NormalizerFixer {}));
    r.with_input("<?php\n$a->b($b->a()?->b())->c();\n$a->b($b->a->b)?->c;\n".as_bytes().to_vec());
    r.with_expected_output("<?php\n$a\n->b(\n$b\n->a()\n?->b()\n)\n->c();\n$a\n->b(\n$b\n->a\n->b\n)\n?->c;\n".as_bytes().to_vec());
    assert!(r.check());
}
#[test]
fn function_modifier_is_normalized() {
    let mut r = FixerTestRunner::new();
    r.with_fixer(Fixer::Normalizer(NormalizerFixer {}));
    r.with_input("<?php\nclass Test {\n    function    a() {}\n    public   function    a() {}\n    private    function    c() {}\n    protected    function    d() {}\n    static  function    e() {}\n    public static  function    f()  {  }\n    private    static  function    g()  { }\n    protected    static  function    h()    {}\n}\n".as_bytes().to_vec());
    r.with_expected_output("<?php\nclass Test\n{\nfunction a()\n{\n}\npublic function a()\n{\n}\nprivate function c()\n{\n}\nprotected function d()\n{\n}\nstatic function e()\n{\n}\npublic static function f()\n{\n}\nprivate static function g()\n{\n}\nprotected static function h()\n{\n}\n}\n".as_bytes().to_vec());
    assert!(r.check());
}
#[test]
fn returns_are_correctly_normalized() {
    let mut r = FixerTestRunner::new();
    r.with_fixer(Fixer::Normalizer(NormalizerFixer {}));
    r.with_input("<?php\nfunction() {\n    return    1;\n    return 1;\n    return[];\n    return;\n}\n".as_bytes().to_vec());
    r.with_expected_output("<?php\nfunction()\n{\nreturn 1;\nreturn 1;\nreturn [];\nreturn;\n}\n".as_bytes().to_vec());
    assert!(r.check());
}
#[test]
fn object_initializer_are_spaced() {
    let mut r = FixerTestRunner::new();
    r.with_fixer(Fixer::Normalizer(NormalizerFixer {}));
    r.with_input("<?php\n$a=[\n1=>1,\n    2=>    2,\n];\n$b=[ 1=>1, 2=>    2];\n".as_bytes().to_vec());
    r.with_expected_output("<?php\n$a = [\n1 => 1,\n2 => 2,\n];\n$b = [\n1 => 1,\n2 => 2\n];\n".as_bytes().to_vec());
    assert!(r.check());
}
#[test]
fn optional_return_type_is_correctly_normalized() {
    let mut r = FixerTestRunner::new();
    r.with_fixer(Fixer::Normalizer(NormalizerFixer {}));
    r.with_input("<?php\nclass Test\n{\n    public function a()   : ?  A  { }\n    public function b():?B{ }\n    public function c(): ?C { }\n}\n".as_bytes().to_vec());
    r.with_expected_output("<?php\nclass Test\n{\npublic function a(): ?A\n{\n}\npublic function b(): ?B\n{\n}\npublic function c(): ?C\n{\n}\n}\n".as_bytes().to_vec());
    assert!(r.check());
}
#[test]
fn union_return_types_are_correctly_normalized() {
    let mut r = FixerTestRunner::new();
    r.with_fixer(Fixer::Normalizer(NormalizerFixer {}));
    r.with_input("<?php\nclass Test\n{\n    public function a(): A    |B|  string |null|bool   { }\n}\n".as_bytes().to_vec());
    r.with_expected_output("<?php\nclass Test\n{\npublic function a(): A | B | string | null | bool\n{\n}\n}\n".as_bytes().to_vec());
    assert!(r.check());
}
#[test]
fn closing_parenthesis_does_not_add_unnecessary_new_lines() {
    let mut r = FixerTestRunner::new();
    r.with_fixer(Fixer::Normalizer(NormalizerFixer {}));
    r.with_input("<?php\nwrapper($class->icon(function () {}));\n".as_bytes().to_vec());
    r.with_expected_output("<?php\nwrapper(\n$class\n->icon(\nfunction()\n{\n}\n)\n);\n".as_bytes().to_vec());
    assert!(r.check());
}
#[test]
fn closing_brackets_does_not_add_unnecessary_new_lines() {
    let mut r = FixerTestRunner::new();
    r.with_fixer(Fixer::Normalizer(NormalizerFixer {}));
    r.with_input("<?php\nclass Test {\npublic function name() {}\n}\n".as_bytes().to_vec());
    r.with_expected_output("<?php\nclass Test\n{\npublic function name()\n{\n}\n}\n".as_bytes().to_vec());
    assert!(r.check());
}
#[test]
fn named_params_are_correctly_normalized() {
    let mut r = FixerTestRunner::new();
    r.with_fixer(Fixer::Normalizer(NormalizerFixer {}));
    r.with_input("<?php\nfunction test(A $a, B|C $b, ?D $c = null) {}\n".as_bytes().to_vec());
    r.with_expected_output("<?php\nfunction test(\nA $a,\nB | C $b,\n?D $c = null\n)\n{\n}\n".as_bytes().to_vec());
    assert!(r.check());
}
#[test]
fn union_primitive_arguments_are_correctly_normalized() {
    let mut r = FixerTestRunner::new();
    r.with_fixer(Fixer::Normalizer(NormalizerFixer {}));
    r.with_input("<?php\nfunction test(\n   null    $a,\nbool $b,\n    int  $c,\n  float  $d,\n   string $e  ,\narray $f ,\n  object  $g,\n   callable $h,\n resource       $i,\n  mixed       $h,\n) {}\n".as_bytes().to_vec());
    r.with_expected_output("<?php\nfunction test(\nnull $a,\nbool $b,\nint $c,\nfloat $d,\nstring $e,\narray $f,\nobject $g,\ncallable $h,\nresource $i,\nmixed $h,\n)\n{\n}\n".as_bytes().to_vec());
    assert!(r.check());
}
#[test]
fn named_arguments_are_correctly_normalized() {
    let mut r = FixerTestRunner::new();
    r.with_fixer(Fixer::Normalizer(NormalizerFixer {}));
    r.with_input("<?php\ntest(  a:1, b   :  2, c: 3);\n".as_bytes().to_vec());
    r.with_expected_output("<?php\ntest(\na: 1,\nb: 2,\nc: 3\n);\n".as_bytes().to_vec());
    assert!(r.check());
}
#[test]
fn new_keyword_is_spaced() {
    let mut r = FixerTestRunner::new();
    r.with_fixer(Fixer::Normalizer(NormalizerFixer {}));
    r.with_input("<?php\n$object=new      MyObject();\n$class  =  new    class()   {    };\n".as_bytes().to_vec());
    r.with_expected_output("<?php\n$object = new MyObject();\n$class = new class ()\n{\n};\n".as_bytes().to_vec());
    assert!(r.check());
}
#[test]
fn for_loops() {
    let mut r = FixerTestRunner::new();
    r.with_fixer(Fixer::Normalizer(NormalizerFixer {}));
    r.with_input("<?php\nfor($i   = 0 ; $i  <  10;   $i++ ) {\n        $test=1;\n                for (;;){}\n}\n".as_bytes().to_vec());
    r.with_expected_output("<?php\nfor(\n$i = 0;\n$i < 10;\n$i++\n)\n{\n$test = 1;\nfor(\n;\n;\n)\n{\n}\n}\n".as_bytes().to_vec());
    assert!(r.check());
}
#[test]
fn negative_and_floating_numbers() {
    let mut r = FixerTestRunner::new();
    r.with_fixer(Fixer::Normalizer(NormalizerFixer {}));
    r.with_input("<?php\n$a=-1-+1;\n$b=-1.0+-1.-+1;\n".as_bytes().to_vec());
    r.with_expected_output("<?php\n$a = -1 - +1;\n$b = -1.0 + -1. - +1;\n".as_bytes().to_vec());
    assert!(r.check());
}
#[test]
fn while_loops() {
    let mut r = FixerTestRunner::new();
    r.with_fixer(Fixer::Normalizer(NormalizerFixer {}));
    r.with_input("<?php\nwhile  (true) {\n    do{\n         $x++;\n    }  while ( true );\n}\n".as_bytes().to_vec());
    r.with_expected_output("<?php\nwhile(\ntrue\n)\n{\ndo\n{\n$x++;\n}\nwhile(\ntrue\n);\n}\n".as_bytes().to_vec());
    assert!(r.check());
}
#[test]
fn foreach() {
    let mut r = FixerTestRunner::new();
    r.with_fixer(Fixer::Normalizer(NormalizerFixer {}));
    r.with_input("<?php\nforeach  ($a as $b=>$c) {}\n".as_bytes().to_vec());
    r.with_expected_output("<?php\nforeach(\n$a as $b => $c\n)\n{\n}\n".as_bytes().to_vec());
    assert!(r.check());
}
#[test]
fn qualified_namespace_named_parameter() {
    let mut r = FixerTestRunner::new();
    r.with_fixer(Fixer::Normalizer(NormalizerFixer {}));
    r.with_input("<?php\nfunction(App\\Service\\A|\\Closure $a){};\n".as_bytes().to_vec());
    r.with_expected_output("<?php\nfunction(\nApp\\Service\\A | \\Closure $a\n)\n{\n};\n".as_bytes().to_vec());
    assert!(r.check());
}
#[test]
fn namespace_imports_and_alias() {
    let mut r = FixerTestRunner::new();
    r.with_fixer(Fixer::Normalizer(NormalizerFixer {}));
    r.with_input("<?php\n    namespace      App\\Service ;\n   use  App\\Service\\A as B   ;\n use App\\Service\\C   ;\n".as_bytes().to_vec());
    r.with_expected_output("<?php\nnamespace App\\Service;\nuse App\\Service\\A as B;\nuse App\\Service\\C;\n".as_bytes().to_vec());
    assert!(r.check());
}
#[test]
fn traits() {
    let mut r = FixerTestRunner::new();
    r.with_fixer(Fixer::Normalizer(NormalizerFixer {}));
    r.with_input("<?php\nclass Test\n{\n    use  A ;\n    use A\\B ;\n    use A\\C {\n        A\\C::test   as  test2;\n        test  as  test;\n        C::test  as  test;\n        \\App\\C::test   as  test;\n        \\App\\C::test   as private  test;\n        \\App\\C::test   as public  test;\n        \\App\\C::test   as protected  test;\n    }\n}\n".as_bytes().to_vec());
    r.with_expected_output("<?php\nclass Test\n{\nuse A;\nuse A\\B;\nuse A\\C\n{\nA\\C::test as test2;\ntest as test;\nC::test as test;\n\\App\\C::test as test;\n\\App\\C::test as private test;\n\\App\\C::test as public test;\n\\App\\C::test as protected test;\n}\n}\n".as_bytes().to_vec());
    assert!(r.check());
}
#[test]
fn consecutive_elements_are_spaced_after_brackets() {
    let mut r = FixerTestRunner::new();
    r.with_fixer(Fixer::Normalizer(NormalizerFixer {}));
    r.with_input("<?php\nclass A {}\nclass B {}\n$a = new A();\n$b = new B();\nclass C {}\n".as_bytes().to_vec());
    r.with_expected_output("<?php\nclass A\n{\n}\nclass B\n{\n}\n$a = new A();\n$b = new B();\nclass C\n{\n}\n".as_bytes().to_vec());
    assert!(r.check());
}
#[test]
fn use_on_function() {
    let mut r = FixerTestRunner::new();
    r.with_fixer(Fixer::Normalizer(NormalizerFixer {}));
    r.with_input("<?php\nfunction() use ($test){ };\n".as_bytes().to_vec());
    r.with_expected_output("<?php\nfunction() use (\n$test\n)\n{\n};\n".as_bytes().to_vec());
    assert!(r.check());
}
#[test]
fn const_variables() {
    let mut r = FixerTestRunner::new();
    r.with_fixer(Fixer::Normalizer(NormalizerFixer {}));
    r.with_input("<?php\nconst   SAMPLE   =  1;\nclass Test {   const    SAMPLE = 1; }\n".as_bytes().to_vec());
    r.with_expected_output("<?php\nconst SAMPLE = 1;\nclass Test\n{\nconst SAMPLE = 1;\n}\n".as_bytes().to_vec());
    assert!(r.check());
}
#[test]
fn final_echo_readonly() {
    let mut r = FixerTestRunner::new();
    r.with_fixer(Fixer::Normalizer(NormalizerFixer {}));
    r.with_input("<?php\n   final   readonly  class  Test\n{\n    public   readonly  string  $title;\n    final   const  X  =  \"foo\";\n    final   public  function  test()\n        {\n        echo        \"test\";\n    }\n}\n".as_bytes().to_vec());
    r.with_expected_output("<?php\nfinal readonly class Test\n{\npublic readonly string $title;\nfinal const X = \"foo\";\nfinal public function test()\n{\necho \"test\";\n}\n}\n".as_bytes().to_vec());
    assert!(r.check());
}
#[test]
fn class_properties() {
    let mut r = FixerTestRunner::new();
    r.with_fixer(Fixer::Normalizer(NormalizerFixer {}));
    r.with_input("<?php\nfinal class FooDecorator\n{\n    private$foo;\n    private  string  $foo;\n    public  int  $foo;\n    protected  bool| string  $foo=  1;\n    private A | B $foo;\n    private A\\B | A | null  $foo;\n}\n".as_bytes().to_vec());
    r.with_expected_output("<?php\nfinal class FooDecorator\n{\nprivate $foo;\nprivate string $foo;\npublic int $foo;\nprotected bool | string $foo = 1;\nprivate A | B $foo;\nprivate A\\B | A | null $foo;\n}\n".as_bytes().to_vec());
    assert!(r.check());
}
#[test]
fn interface_trait() {
    let mut r = FixerTestRunner::new();
    r.with_fixer(Fixer::Normalizer(NormalizerFixer {}));
    r.with_input("<?php\ninterface Foo {}\ntrait Foo {}\n".as_bytes().to_vec());
    r.with_expected_output("<?php\ninterface Foo\n{\n}\ntrait Foo\n{\n}\n".as_bytes().to_vec());
    assert!(r.check());
}
#[test]
fn static_properties() {
    let mut r = FixerTestRunner::new();
    r.with_fixer(Fixer::Normalizer(NormalizerFixer {}));
    r.with_input("<?php\nclass Foo\n{\n    protected  static $var  =  1;\n    static  $var  =  1;\n    static  string  $var =  1;\n    static  A $var  = 1;\n    public  static  A\\B  $var  = 1;\n    private  static  A\\B\\C  $var  = 1;\n}\n".as_bytes().to_vec());
    r.with_expected_output("<?php\nclass Foo\n{\nprotected static $var = 1;\nstatic $var = 1;\nstatic string $var = 1;\nstatic A $var = 1;\npublic static A\\B $var = 1;\nprivate static A\\B\\C $var = 1;\n}\n".as_bytes().to_vec());
    assert!(r.check());
}
