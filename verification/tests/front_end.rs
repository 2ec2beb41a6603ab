use kaleidoscope::ast::BinaryOp;
use kaleidoscope::backend::{
    CodeGenFileType, CodeGenOptLevel, CodeModel, FunctionAddress, IntPredicate,
    LLVMCodeGenFileType, LLVMCodeGenOptLevel, LLVMCodeModel, LLVMIntPredicate,
    LLVMRealPredicate, LLVMRelocMode, LLVMVerifierFailureAction, RealPredicate, RelocMode,
    VerifierFailureAction, llvm_init,
};
use kaleidoscope::error::Error;
use kaleidoscope::lexer::{Lexer, Token};
use kaleidoscope::parser::Parser;

#[test]
fn lex_number_single_token() {
    let mut lexer = Lexer::new(b"1234".to_vec());
    assert_eq!(lexer.next_token().unwrap(), Token::Number(b"1234".to_vec()));
    assert_eq!(lexer.next_token().unwrap(), Token::Eof);
}

#[test]
fn lex_number_with_fraction() {
    let mut lexer = Lexer::new(b"3.25 x".to_vec());
    assert_eq!(lexer.next_token().unwrap(), Token::Number(b"3.25".to_vec()));
    assert_eq!(lexer.next_token().unwrap(), Token::Identifier(b"x".to_vec()));
}

#[test]
fn lex_number_garbage_boundary() {
    let mut lexer = Lexer::new(b"12$".to_vec());
    assert_eq!(lexer.next_token().unwrap(), Token::Number(b"12".to_vec()));
    assert_eq!(lexer.next_token(), Err(Error::UnknownChar(b'$')));
}

#[test]
fn lex_malformed_number() {
    let mut lexer = Lexer::new(b"1.2.3".to_vec());
    assert_eq!(lexer.next_token(), Err(Error::MalformedNumber));
}

#[test]
fn lex_identifier_not_keyword() {
    let mut lexer = Lexer::new(b"define".to_vec());
    assert_eq!(
        lexer.next_token().unwrap(),
        Token::Identifier(b"define".to_vec())
    );
}

#[test]
fn lex_keywords_and_punctuation() {
    let mut lexer = Lexer::new(b"def f(a, b) ;".to_vec());
    assert_eq!(lexer.next_token().unwrap(), Token::Def);
    assert_eq!(lexer.next_token().unwrap(), Token::Identifier(b"f".to_vec()));
    assert_eq!(lexer.next_token().unwrap(), Token::OpenParen);
    assert_eq!(lexer.next_token().unwrap(), Token::Identifier(b"a".to_vec()));
    assert_eq!(lexer.next_token().unwrap(), Token::Comma);
    assert_eq!(lexer.next_token().unwrap(), Token::Identifier(b"b".to_vec()));
    assert_eq!(lexer.next_token().unwrap(), Token::CloseParen);
    assert_eq!(lexer.next_token().unwrap(), Token::SemiColon);
    assert_eq!(lexer.next_token().unwrap(), Token::Eof);
}

#[test]
fn lex_comment_skipped() {
    let mut lexer = Lexer::new(b"# a comment\n42".to_vec());
    assert_eq!(lexer.next_token().unwrap(), Token::Number(b"42".to_vec()));
}

#[test]
fn peek_twice_returns_same_token() {
    let mut lexer = Lexer::new(b"hello 5".to_vec());
    let first = lexer.peek().unwrap();
    let second = lexer.peek().unwrap();
    assert_eq!(first, second);
    assert_eq!(first, Token::Identifier(b"hello".to_vec()));
    assert_eq!(lexer.next_token().unwrap(), Token::Identifier(b"hello".to_vec()));
    assert_eq!(lexer.next_token().unwrap(), Token::Number(b"5".to_vec()));
}

#[test]
fn eof_is_persistent() {
    let mut lexer = Lexer::new(b"".to_vec());
    assert_eq!(lexer.next_token().unwrap(), Token::Eof);
    assert_eq!(lexer.next_token().unwrap(), Token::Eof);
    assert_eq!(lexer.peek().unwrap(), Token::Eof);
}

#[test]
fn parse_plain_prototype() {
    let mut parser = Parser::new(Lexer::new(b"foo(a b)".to_vec()));
    let proto = parser.prototype().unwrap();
    assert_eq!(proto.function_name, b"foo".to_vec());
    assert_eq!(proto.parameters, vec![b"a".to_vec(), b"b".to_vec()]);
}

#[test]
fn parse_operator_prototype_mangles_name() {
    let mut parser = Parser::new(Lexer::new(b"binary| 5 (a b)".to_vec()));
    let proto = parser.prototype().unwrap();
    assert_eq!(proto.function_name, b"binary|".to_vec());
    assert_eq!(proto.parameters, vec![b"a".to_vec(), b"b".to_vec()]);
}

#[test]
fn parse_unary_prototype_mangles_name() {
    let mut parser = Parser::new(Lexer::new(b"unary!(v)".to_vec()));
    let proto = parser.prototype().unwrap();
    assert_eq!(proto.function_name, b"unary!".to_vec());
    assert_eq!(proto.parameters, vec![b"v".to_vec()]);
}

#[test]
fn parse_prototype_rejects_missing_paren() {
    let mut parser = Parser::new(Lexer::new(b"foo a b".to_vec()));
    assert!(parser.prototype().is_err());
}

#[test]
fn parse_extern_prototype() {
    let mut parser = Parser::new(Lexer::new(b"extern sin(x)".to_vec()));
    let proto = parser.extern_().unwrap();
    assert_eq!(proto.function_name, b"sin".to_vec());
    assert_eq!(proto.parameters, vec![b"x".to_vec()]);
}

#[test]
fn binary_op_custom_distinct() {
    assert_eq!(BinaryOp::Custom(b'|'), BinaryOp::Custom(b'|'));
    assert_ne!(BinaryOp::Custom(b'|'), BinaryOp::Custom(b'&'));
    assert_ne!(BinaryOp::Plus, BinaryOp::Minus);
}

#[test]
fn verifier_action_raw_codes() {
    assert_eq!(
        VerifierFailureAction::AbortProcess.as_raw(),
        LLVMVerifierFailureAction::LLVMAbortProcessAction
    );
    assert_eq!(
        VerifierFailureAction::PrintMessage.as_raw(),
        LLVMVerifierFailureAction::LLVMPrintMessageAction
    );
    assert_eq!(
        VerifierFailureAction::ReturnStatus.as_raw(),
        LLVMVerifierFailureAction::LLVMReturnStatusAction
    );
}

#[test]
fn predicate_raw_codes() {
    assert_eq!(IntPredicate::Equal.as_raw(), LLVMIntPredicate::LLVMIntEQ);
    assert_eq!(
        IntPredicate::SignedGreaterThan.as_raw(),
        LLVMIntPredicate::LLVMIntSGT
    );
    assert_eq!(
        IntPredicate::UnsignedLesserThanOrEqual.as_raw(),
        LLVMIntPredicate::LLVMIntULE
    );
    assert_eq!(
        RealPredicate::OrderedLesserThan.as_raw(),
        LLVMRealPredicate::LLVMRealOLT
    );
    assert_eq!(
        RealPredicate::True.as_raw(),
        LLVMRealPredicate::LLVMRealPredicateTrue
    );
}

#[test]
fn target_option_raw_codes() {
    assert_eq!(
        CodeGenFileType::ObjectFile.as_raw(),
        LLVMCodeGenFileType::LLVMObjectFile
    );
    assert_eq!(
        CodeGenOptLevel::Aggressive.as_raw(),
        LLVMCodeGenOptLevel::LLVMCodeGenLevelAggressive
    );
    assert_eq!(RelocMode::PIC.as_raw(), LLVMRelocMode::LLVMRelocPIC);
    assert_eq!(CodeModel::Large.as_raw(), LLVMCodeModel::LLVMCodeModelLarge);
}

#[test]
fn llvm_session_and_function_address() {
    let _session = llvm_init();
    let addr = FunctionAddress::from_raw(42);
    assert_eq!(addr.as_raw(), 42);
}

use kaleidoscope::ast::Expr;

#[test]
fn parse_definition() {
    let mut parser = Parser::new(Lexer::new(b"def id(x) x".to_vec()));
    let f = parser.definition().unwrap();
    assert_eq!(f.prototype.function_name, b"id".to_vec());
    assert_eq!(f.prototype.parameters, vec![b"x".to_vec()]);
    assert_eq!(f.body, Expr::Variable(b"x".to_vec()));
}

#[test]
fn precedence_times_binds_tighter_than_plus() {
    let mut parser = Parser::new(Lexer::new(b"def f() 1 + 2 * 3".to_vec()));
    let f = parser.definition().unwrap();
    assert_eq!(
        f.body,
        Expr::Binary(
            BinaryOp::Plus,
            Box::new(Expr::Number(b"1".to_vec())),
            Box::new(Expr::Binary(
                BinaryOp::Times,
                Box::new(Expr::Number(b"2".to_vec())),
                Box::new(Expr::Number(b"3".to_vec())),
            )),
        )
    );
}

#[test]
fn equal_precedence_is_left_associative() {
    let mut parser = Parser::new(Lexer::new(b"def f() 1 - 2 - 3".to_vec()));
    let f = parser.definition().unwrap();
    assert_eq!(
        f.body,
        Expr::Binary(
            BinaryOp::Minus,
            Box::new(Expr::Binary(
                BinaryOp::Minus,
                Box::new(Expr::Number(b"1".to_vec())),
                Box::new(Expr::Number(b"2".to_vec())),
            )),
            Box::new(Expr::Number(b"3".to_vec())),
        )
    );
}

#[test]
fn custom_operator_round_trip() {
    let mut parser = Parser::new(Lexer::new(b"def binary| 5 (a b) a; 1 | 2".to_vec()));
    let decl = parser.definition().unwrap();
    assert_eq!(decl.prototype.function_name, b"binary|".to_vec());
    assert_eq!(parser.lexer.next_token().unwrap(), Token::SemiColon);
    let f = parser.toplevel().unwrap();
    assert_eq!(
        f.body,
        Expr::Binary(
            BinaryOp::Custom(b'|'),
            Box::new(Expr::Number(b"1".to_vec())),
            Box::new(Expr::Number(b"2".to_vec())),
        )
    );
}

#[test]
fn undeclared_custom_operator_fails() {
    let mut parser = Parser::new(Lexer::new(b"1 | 2".to_vec()));
    assert_eq!(parser.toplevel(), Err(Error::UndefinedOperator));
}

#[test]
fn toplevel_names_are_distinct() {
    let mut parser = Parser::new(Lexer::new(b"1; 2".to_vec()));
    let f1 = parser.toplevel().unwrap();
    assert_eq!(parser.lexer.next_token().unwrap(), Token::SemiColon);
    let f2 = parser.toplevel().unwrap();
    assert_eq!(f1.prototype.function_name, b"__anon_1".to_vec());
    assert_eq!(f2.prototype.function_name, b"__anon_2".to_vec());
    assert_ne!(f1.prototype.function_name, f2.prototype.function_name);
}

#[test]
fn call_arguments_are_parsed_in_order() {
    let mut parser = Parser::new(Lexer::new(b"def f() g(1, x)".to_vec()));
    let f = parser.definition().unwrap();
    assert_eq!(
        f.body,
        Expr::Call(
            b"g".to_vec(),
            vec![Expr::Number(b"1".to_vec()), Expr::Variable(b"x".to_vec())],
        )
    );
}

use kaleidoscope::ast::Prototype;
use kaleidoscope::gen::Generator;

#[test]
fn redeclaring_same_arity_is_accepted() {
    let mut generator = Generator::new();
    let proto = Prototype {
        function_name: b"foo".to_vec(),
        parameters: vec![b"a".to_vec(), b"b".to_vec()],
    };
    assert!(generator.prototype(proto).is_ok());
    let again = Prototype {
        function_name: b"foo".to_vec(),
        parameters: vec![b"x".to_vec(), b"y".to_vec()],
    };
    assert!(generator.prototype(again).is_ok());
    assert_eq!(generator.lookup_arity(&b"foo".to_vec()), Some(2));
}

#[test]
fn redeclaring_with_different_arity_fails() {
    let mut generator = Generator::new();
    let proto = Prototype {
        function_name: b"foo".to_vec(),
        parameters: vec![b"a".to_vec(), b"b".to_vec()],
    };
    assert!(generator.prototype(proto).is_ok());
    let narrower = Prototype { function_name: b"foo".to_vec(), parameters: vec![b"a".to_vec()] };
    assert_eq!(
        generator.prototype(narrower),
        Err(Error::FunctionRedefWithDifferentParams)
    );
    assert_eq!(generator.lookup_arity(&b"foo".to_vec()), Some(2));
}

#[test]
fn names_resolve_in_any_declaration_order() {
    let mut generator = Generator::new();
    assert_eq!(generator.lookup_arity(&b"foo".to_vec()), None);
    let bar = Prototype { function_name: b"bar".to_vec(), parameters: vec![] };
    assert!(generator.prototype(bar).is_ok());
    let foo = Prototype { function_name: b"foo".to_vec(), parameters: vec![] };
    assert!(generator.prototype(foo).is_ok());
    assert_eq!(generator.lookup_arity(&b"bar".to_vec()), Some(0));
    assert_eq!(generator.lookup_arity(&b"foo".to_vec()), Some(0));
}

#[test]
fn shadowed_binding_is_restored_when_scope_ends() {
    let mut generator = Generator::new();
    generator.bind(b"x".to_vec(), 1);
    let depth = generator.scope_depth();
    generator.bind(b"x".to_vec(), 2);
    assert_eq!(generator.value_of(&b"x".to_vec()), Some(2));
    generator.restore_to(depth);
    assert_eq!(generator.value_of(&b"x".to_vec()), Some(1));
}

#[test]
fn leaving_a_scope_removes_its_bindings() {
    let mut generator = Generator::new();
    let depth = generator.scope_depth();
    generator.bind(b"i".to_vec(), 0);
    assert_eq!(generator.value_of(&b"i".to_vec()), Some(0));
    generator.restore_to(depth);
    assert_eq!(generator.value_of(&b"i".to_vec()), None);
}

#[test]
fn call_with_wrong_argument_count_fails() {
    let mut parser = Parser::new(Lexer::new(b"extern foo(a b)".to_vec()));
    let proto = parser.extern_().unwrap();
    let mut generator = Generator::new();
    assert!(generator.prototype(proto).is_ok());
    assert_eq!(
        generator.check_call(&b"foo".to_vec(), 1),
        Err(Error::WrongArgumentCount)
    );
    assert_eq!(generator.check_call(&b"foo".to_vec(), 2), Ok(()));
    assert_eq!(
        generator.check_call(&b"bar".to_vec(), 0),
        Err(Error::UndefinedFunction(b"bar".to_vec()))
    );
}
