use xvm::ast::{
    ConstantDecl, DeclarationStatement, Expression, FunctionDecl, Operator, Parameter, Program,
    Statement,
};
use xvm::environment::{Environment, StructDef};
use xvm::interpreter::{Interpreter, InterpreterError};
use xvm::types::Type;
use xvm::values::Value;

fn entry_main(statements: Vec<Statement>) -> FunctionDecl {
    FunctionDecl {
        name: String::from("main"),
        for_type: None,
        instance_name: None,
        parameters: vec![],
        statements,
        entry: true,
        return_type: Some(Type::U64),
    }
}

fn program_with_main(statements: Vec<Statement>) -> Program {
    Program { structures: vec![], constants: vec![], functions: vec![entry_main(statements)] }
}

fn run_main(program: Program) -> Result<u64, InterpreterError> {
    let mut env = Environment::new();
    xvm::xstd::register(&mut env);
    let mut interpreter = Interpreter::new(program, 10_000, 64, env)?;
    interpreter.call_entry_function(&String::from("main"), vec![])
}

fn var(id: u16) -> Expression {
    Expression::Variable(id)
}

fn num_u8(n: u8) -> Expression {
    Expression::Value(Value::U8(n))
}

fn num_u64(n: u64) -> Expression {
    Expression::Value(Value::U64(n))
}

fn declare(id: u16, t: Type, value: Expression) -> Statement {
    Statement::Variable(DeclarationStatement { id, value_type: t, value })
}

fn binary(op: Operator, l: Expression, r: Expression) -> Expression {
    Expression::Operator(op, Box::new(l), Box::new(r))
}

#[test]
fn overflowing_byte_addition_is_reported() {
    // let x: u8 = 200; let y: u8 = 100; return (x + y) as u64;
    let program = program_with_main(vec![
        declare(0, Type::U8, num_u8(200)),
        declare(1, Type::U8, num_u8(100)),
        Statement::Return(Some(Expression::Cast(
            Box::new(binary(Operator::Plus, var(0), var(1))),
            Type::U64,
        ))),
    ]);
    assert!(matches!(run_main(program), Err(InterpreterError::OverflowOccured)));
}

#[test]
fn array_elements_are_updated_in_place() {
    // let a: u64[] = [10, 20, 30]; a[1] = a[0] + a[2]; return a[1];
    let array_t = Type::Array(Box::new(Type::U64));
    let program = program_with_main(vec![
        declare(
            0,
            array_t,
            Expression::ArrayConstructor(vec![num_u64(10), num_u64(20), num_u64(30)]),
        ),
        Statement::Expression(binary(
            Operator::Assign,
            Expression::ArrayCall(Box::new(var(0)), Box::new(num_u64(1))),
            binary(
                Operator::Plus,
                Expression::ArrayCall(Box::new(var(0)), Box::new(num_u64(0))),
                Expression::ArrayCall(Box::new(var(0)), Box::new(num_u64(2))),
            ),
        )),
        Statement::Return(Some(Expression::ArrayCall(Box::new(var(0)), Box::new(num_u64(1))))),
    ]);
    assert_eq!(run_main(program).unwrap(), 40);
}

#[test]
fn struct_fields_are_read_positionally() {
    // struct P { x: u32, y: u32 }; let p = P { x: 3, y: 4 };
    // return (p.x * p.x + p.y * p.y) as u64;
    let structures = vec![StructDef {
        id: 0,
        name: String::from("P"),
        fields: vec![
            (String::from("x"), Type::U32),
            (String::from("y"), Type::U32),
        ],
    }];
    let px = || Expression::Path(Box::new(var(0)), Box::new(var(0)));
    let py = || Expression::Path(Box::new(var(0)), Box::new(var(1)));
    let statements = vec![
        declare(
            0,
            Type::Struct(0),
            Expression::StructConstructor(
                String::from("P"),
                vec![
                    (String::from("x"), Expression::Value(Value::U32(3))),
                    (String::from("y"), Expression::Value(Value::U32(4))),
                ],
            ),
        ),
        Statement::Return(Some(Expression::Cast(
            Box::new(binary(
                Operator::Plus,
                binary(Operator::Multiply, px(), px()),
                binary(Operator::Multiply, py(), py()),
            )),
            Type::U64,
        ))),
    ];
    let program =
        Program { structures, constants: vec![], functions: vec![entry_main(statements)] };
    assert_eq!(run_main(program).unwrap(), 25);
}

#[test]
fn string_concatenation_in_a_while_loop() {
    // let s = ""; let i: u8 = 0; while i < 3 { s += "a"; i += 1; }
    // return s.len() as u64;
    let program = program_with_main(vec![
        declare(0, Type::String, Expression::Value(Value::String(String::new()))),
        declare(1, Type::U8, num_u8(0)),
        Statement::While(
            binary(Operator::LessThan, var(1), num_u8(3)),
            vec![
                Statement::Expression(binary(
                    Operator::AssignPlus,
                    var(0),
                    Expression::Value(Value::String(String::from("a"))),
                )),
                Statement::Expression(binary(Operator::AssignPlus, var(1), num_u8(1))),
            ],
        ),
        Statement::Return(Some(Expression::Cast(
            Box::new(Expression::Path(
                Box::new(var(0)),
                Box::new(Expression::FunctionCall(String::from("len"), vec![])),
            )),
            Type::U64,
        ))),
    ]);
    assert_eq!(run_main(program).unwrap(), 3);
}

#[test]
fn unwrap_or_answers_on_the_empty_optional() {
    // let o: optional<u64> = null; return o.unwrap_or(42);
    let program = program_with_main(vec![
        declare(
            0,
            Type::Optional(Box::new(Type::U64)),
            Expression::Value(Value::Null),
        ),
        Statement::Return(Some(Expression::Path(
            Box::new(var(0)),
            Box::new(Expression::FunctionCall(
                String::from("unwrap_or"),
                vec![num_u64(42)],
            )),
        ))),
    ]);
    assert_eq!(run_main(program).unwrap(), 42);
}

#[test]
fn runaway_recursion_is_stopped() {
    // fn f() { f(); } entry fn main() -> u64 { f(); return 0; }
    let f = FunctionDecl {
        name: String::from("f"),
        for_type: None,
        instance_name: None,
        parameters: vec![],
        statements: vec![Statement::Expression(Expression::FunctionCall(
            String::from("f"),
            vec![],
        ))],
        entry: false,
        return_type: None,
    };
    let main = entry_main(vec![
        Statement::Expression(Expression::FunctionCall(String::from("f"), vec![])),
        Statement::Return(Some(num_u64(0))),
    ]);
    let program = Program { structures: vec![], constants: vec![], functions: vec![f, main] };
    assert!(matches!(
        run_main(program),
        Err(InterpreterError::RecursiveLimitReached)
    ));
}

#[test]
fn binding_an_array_aliases_its_storage() {
    // let a = [1, 2, 3]; let b = a; b[0] = 9; return a[0];
    let program = program_with_main(vec![
        declare(
            0,
            Type::Array(Box::new(Type::U64)),
            Expression::ArrayConstructor(vec![num_u64(1), num_u64(2), num_u64(3)]),
        ),
        declare(1, Type::Array(Box::new(Type::U64)), var(0)),
        Statement::Expression(binary(
            Operator::Assign,
            Expression::ArrayCall(Box::new(var(1)), Box::new(num_u64(0))),
            num_u64(9),
        )),
        Statement::Return(Some(Expression::ArrayCall(Box::new(var(0)), Box::new(num_u64(0))))),
    ]);
    assert_eq!(run_main(program).unwrap(), 9);
}

#[test]
fn the_expression_meter_stops_an_endless_loop() {
    // while true {} never finishes on its own; the meter does
    let program = program_with_main(vec![
        Statement::While(Expression::Value(Value::Boolean(true)), vec![]),
        Statement::Return(Some(num_u64(0))),
    ]);
    assert!(matches!(run_main(program), Err(InterpreterError::LimitReached)));
}

#[test]
fn the_meter_counts_every_evaluated_node() {
    // return 1 + 2: one statement, three expression nodes
    let program = program_with_main(vec![Statement::Return(Some(binary(
        Operator::Plus,
        num_u64(1),
        num_u64(2),
    )))]);
    let mut env = Environment::new();
    xvm::xstd::register(&mut env);
    let mut interpreter = Interpreter::new(program, 10_000, 64, env).unwrap();
    assert_eq!(interpreter.get_count_expr(), 0);
    assert_eq!(
        interpreter.call_entry_function(&String::from("main"), vec![]).unwrap(),
        3
    );
    // the statement and the three nodes of its expression
    assert_eq!(interpreter.get_count_expr(), 4);
    interpreter.add_count_expr(10);
    assert_eq!(interpreter.get_count_expr(), 14);
}

#[test]
fn division_by_zero_is_reported() {
    let program = program_with_main(vec![Statement::Return(Some(binary(
        Operator::Divide,
        num_u64(1),
        num_u64(0),
    )))]);
    assert!(matches!(run_main(program), Err(InterpreterError::DivByZero)));
}

#[test]
fn ternary_and_comparison_and_foreach() {
    // let sum: u64 = 0; foreach v in [1,2,3] { sum += v; }
    // return sum > 5 ? sum : 0;
    let program = program_with_main(vec![
        declare(0, Type::U64, num_u64(0)),
        Statement::ForEach(
            1,
            Expression::ArrayConstructor(vec![num_u64(1), num_u64(2), num_u64(3)]),
            vec![Statement::Expression(binary(Operator::AssignPlus, var(0), var(1)))],
        ),
        Statement::Return(Some(Expression::Ternary(
            Box::new(binary(Operator::GreaterThan, var(0), num_u64(5))),
            Box::new(var(0)),
            Box::new(num_u64(0)),
        ))),
    ]);
    assert_eq!(run_main(program).unwrap(), 6);
}

#[test]
fn non_entry_functions_cannot_be_called_from_outside() {
    let f = FunctionDecl {
        name: String::from("helper"),
        for_type: None,
        instance_name: None,
        parameters: vec![],
        statements: vec![Statement::Return(Some(num_u64(1)))],
        entry: false,
        return_type: Some(Type::U64),
    };
    let program = Program { structures: vec![], constants: vec![], functions: vec![f] };
    let mut env = Environment::new();
    xvm::xstd::register(&mut env);
    let mut interpreter = Interpreter::new(program, 10_000, 64, env).unwrap();
    assert!(matches!(
        interpreter.call_entry_function(&String::from("helper"), vec![]),
        Err(InterpreterError::FunctionEntry(true, false))
    ));
    assert!(matches!(
        interpreter.call_entry_function(&String::from("absent"), vec![]),
        Err(InterpreterError::FunctionNotFound(_, _))
    ));
}

#[test]
fn user_functions_take_parameters_and_constants_are_visible() {
    // const C = 30; fn add_c(v: u64) -> u64 { return v + C; }
    // entry fn main() -> u64 { return add_c(12); }
    let add_c = FunctionDecl {
        name: String::from("add_c"),
        for_type: None,
        instance_name: None,
        parameters: vec![Parameter { name: 1, value_type: Type::U64 }],
        statements: vec![Statement::Return(Some(binary(Operator::Plus, var(1), var(9))))],
        entry: false,
        return_type: Some(Type::U64),
    };
    let main = entry_main(vec![Statement::Return(Some(Expression::FunctionCall(
        String::from("add_c"),
        vec![num_u64(12)],
    )))]);
    let program = Program {
        structures: vec![],
        constants: vec![ConstantDecl { id: 9, value_type: Type::U64, value: num_u64(30) }],
        functions: vec![add_c, main],
    };
    assert_eq!(run_main(program).unwrap(), 42);
}

#[test]
fn out_of_bounds_indexing_is_reported() {
    let program = program_with_main(vec![
        declare(
            0,
            Type::Array(Box::new(Type::U64)),
            Expression::ArrayConstructor(vec![num_u64(1), num_u64(2), num_u64(3)]),
        ),
        Statement::Return(Some(Expression::ArrayCall(Box::new(var(0)), Box::new(num_u64(5))))),
    ]);
    assert!(matches!(run_main(program), Err(InterpreterError::OutOfBounds(5, 3))));
}

#[test]
fn unknown_structures_and_fields_are_reported() {
    let program = program_with_main(vec![Statement::Return(Some(
        Expression::StructConstructor(String::from("Q"), vec![]),
    ))]);
    assert!(matches!(run_main(program), Err(InterpreterError::StructureNotFound(_))));

    let structures = vec![StructDef {
        id: 0,
        name: String::from("P"),
        fields: vec![(String::from("x"), Type::U32)],
    }];
    let statements = vec![Statement::Return(Some(Expression::StructConstructor(
        String::from("P"),
        vec![(String::from("wrong"), Expression::Value(Value::U32(1)))],
    )))];
    let program =
        Program { structures, constants: vec![], functions: vec![entry_main(statements)] };
    assert!(matches!(
        run_main(program),
        Err(InterpreterError::StructureFieldNotFound(_, _))
    ));
}

#[test]
fn a_field_of_the_wrong_type_is_reported() {
    let structures = vec![StructDef {
        id: 0,
        name: String::from("P"),
        fields: vec![(String::from("x"), Type::U32)],
    }];
    let statements = vec![Statement::Return(Some(Expression::StructConstructor(
        String::from("P"),
        vec![(String::from("x"), num_u64(1))],
    )))];
    let program =
        Program { structures, constants: vec![], functions: vec![entry_main(statements)] };
    assert!(matches!(run_main(program), Err(InterpreterError::InvalidType(_))));
}

#[test]
fn only_places_can_be_assigned_to() {
    let program = program_with_main(vec![Statement::Expression(binary(
        Operator::Assign,
        num_u64(1),
        num_u64(2),
    ))]);
    assert!(matches!(run_main(program), Err(InterpreterError::ExpectedPath)));
}

#[test]
fn a_for_step_must_be_an_assignment() {
    // for i = 0; i < 3; i + 1 { } lacks an assignment step
    let program = program_with_main(vec![
        Statement::For(
            DeclarationStatement { id: 0, value_type: Type::U64, value: num_u64(0) },
            binary(Operator::LessThan, var(0), num_u64(3)),
            binary(Operator::Plus, var(0), num_u64(1)),
            vec![],
        ),
        Statement::Return(Some(num_u64(0))),
    ]);
    assert!(matches!(run_main(program), Err(InterpreterError::ExpectedAssignOperator)));
}

#[test]
fn a_for_loop_with_an_assignment_step_runs() {
    // let s: u64 = 0; for i = 0; i < 4; i += 1 { s += 2; } return s;
    let program = program_with_main(vec![
        declare(0, Type::U64, num_u64(0)),
        Statement::For(
            DeclarationStatement { id: 1, value_type: Type::U64, value: num_u64(0) },
            binary(Operator::LessThan, var(1), num_u64(4)),
            binary(Operator::AssignPlus, var(1), num_u64(1)),
            vec![Statement::Expression(binary(Operator::AssignPlus, var(0), num_u64(2)))],
        ),
        Statement::Return(Some(var(0))),
    ]);
    // the step runs before the body, so the body runs for the counter at 1..=4
    assert_eq!(run_main(program).unwrap(), 8);
}

#[test]
fn a_null_argument_has_no_type() {
    let program = program_with_main(vec![Statement::Return(Some(num_u64(0)))]);
    let mut env = Environment::new();
    xvm::xstd::register(&mut env);
    let mut interpreter = Interpreter::new(program, 10_000, 64, env).unwrap();
    assert!(matches!(
        interpreter.call_entry_function(&String::from("main"), vec![Value::Null]),
        Err(InterpreterError::UnknownType)
    ));
}

#[test]
fn a_function_without_a_result_has_no_exit_code() {
    let main = FunctionDecl {
        name: String::from("main"),
        for_type: None,
        instance_name: None,
        parameters: vec![],
        statements: vec![Statement::Return(None)],
        entry: true,
        return_type: None,
    };
    let program = Program { structures: vec![], constants: vec![], functions: vec![main] };
    assert!(matches!(run_main(program), Err(InterpreterError::NoExitCode)));
}

#[test]
fn break_and_continue_drive_their_loop() {
    // let s: u64 = 0;
    // foreach v in [1,2,3,4,5] { if v == 3 { continue; } if v == 5 { break; } s += v; }
    // return s;  (1 + 2 + 4)
    let eq = |l: Expression, r: Expression| binary(Operator::Equals, l, r);
    let program = program_with_main(vec![
        declare(0, Type::U64, num_u64(0)),
        Statement::ForEach(
            1,
            Expression::ArrayConstructor(vec![
                num_u64(1),
                num_u64(2),
                num_u64(3),
                num_u64(4),
                num_u64(5),
            ]),
            vec![
                Statement::If(eq(var(1), num_u64(3)), vec![Statement::Continue]),
                Statement::If(eq(var(1), num_u64(5)), vec![Statement::Break]),
                Statement::Expression(binary(Operator::AssignPlus, var(0), var(1))),
            ],
        ),
        Statement::Return(Some(var(0))),
    ]);
    assert_eq!(run_main(program).unwrap(), 7);
}

#[test]
fn a_range_can_be_iterated() {
    // let s: u64 = 0; foreach v in 2..6 { s += v; } return s;  (2+3+4+5)
    let range = Expression::Value(Value::Range(
        Box::new(Value::U64(2)),
        Box::new(Value::U64(6)),
        Type::U64,
    ));
    let program = program_with_main(vec![
        declare(0, Type::U64, num_u64(0)),
        Statement::ForEach(
            1,
            range,
            vec![Statement::Expression(binary(Operator::AssignPlus, var(0), var(1)))],
        ),
        Statement::Return(Some(var(0))),
    ]);
    assert_eq!(run_main(program).unwrap(), 14);
}

#[test]
fn a_zero_bound_disables_the_expression_limit() {
    // let s: u64 = 0; foreach v in [1..,] of forty items { s += 1; } return s;
    let elems: Vec<Expression> = (0..40).map(|_| num_u64(1)).collect();
    let program = program_with_main(vec![
        declare(0, Type::U64, num_u64(0)),
        Statement::ForEach(
            1,
            Expression::ArrayConstructor(elems),
            vec![Statement::Expression(binary(Operator::AssignPlus, var(0), var(1)))],
        ),
        Statement::Return(Some(var(0))),
    ]);
    let mut env = Environment::new();
    xvm::xstd::register(&mut env);
    // a bound of zero asks for no limit: the program runs to completion
    let mut interpreter = Interpreter::new(program, 0, 64, env).unwrap();
    assert_eq!(interpreter.call_entry_function(&String::from("main"), vec![]).unwrap(), 40);
}

#[test]
fn the_meter_always_moves() {
    // the program needs two steps; a bound of one admits the first and
    // refuses the second, which is still charged
    let program = program_with_main(vec![Statement::Return(Some(num_u64(1)))]);
    let mut env = Environment::new();
    xvm::xstd::register(&mut env);
    let mut interpreter = Interpreter::new(program, 1, 64, env).unwrap();
    assert!(matches!(
        interpreter.call_entry_function(&String::from("main"), vec![]),
        Err(InterpreterError::LimitReached)
    ));
    assert_eq!(interpreter.get_count_expr(), 2);
}

#[test]
fn a_bound_is_only_passed_not_reached() {
    // the program charges exactly two steps, so a bound of two suffices
    let program = program_with_main(vec![Statement::Return(Some(num_u64(7)))]);
    let mut env = Environment::new();
    xvm::xstd::register(&mut env);
    let mut interpreter = Interpreter::new(program, 2, 64, env).unwrap();
    assert_eq!(interpreter.call_entry_function(&String::from("main"), vec![]).unwrap(), 7);
    assert_eq!(interpreter.get_count_expr(), 2);
}

#[test]
fn entry_results_widen_to_the_exit_integer() {
    // a narrow result is coerced to the widest machine integer
    let program = program_with_main(vec![Statement::Return(Some(num_u8(5)))]);
    assert_eq!(run_main(program).unwrap(), 5);
}

#[test]
fn casts_accept_optional_targets() {
    // let o = 7 as optional<u64>; let n = null as optional<u64>;
    // return o.unwrap() + n.unwrap_or(3);
    let opt_u64 = || Type::Optional(Box::new(Type::U64));
    let program = program_with_main(vec![
        declare(0, opt_u64(), Expression::Cast(Box::new(num_u64(7)), opt_u64())),
        declare(1, opt_u64(), Expression::Cast(Box::new(Expression::Value(Value::Null)), opt_u64())),
        Statement::Return(Some(binary(
            Operator::Plus,
            Expression::Path(
                Box::new(var(0)),
                Box::new(Expression::FunctionCall(String::from("unwrap"), vec![])),
            ),
            Expression::Path(
                Box::new(var(1)),
                Box::new(Expression::FunctionCall(
                    String::from("unwrap_or"),
                    vec![num_u64(3)],
                )),
            ),
        ))),
    ]);
    assert_eq!(run_main(program).unwrap(), 10);
}

#[test]
fn short_circuit_skips_the_right_operand() {
    // false && (1/0 == 1) is false without touching the division
    let program = program_with_main(vec![Statement::Return(Some(Expression::Ternary(
        Box::new(binary(
            Operator::And,
            Expression::Value(Value::Boolean(false)),
            binary(
                Operator::Equals,
                binary(Operator::Divide, num_u64(1), num_u64(0)),
                num_u64(1),
            ),
        )),
        Box::new(num_u64(1)),
        Box::new(num_u64(0)),
    )))]);
    assert_eq!(run_main(program).unwrap(), 0);
}
