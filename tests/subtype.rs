use deskvm_dprocess::ctx::{Ctx, Log, TypeError};
use deskvm_dprocess::ty::Type;

fn b(t: Type) -> Box<Type> {
    Box::new(t)
}

fn holds(sub: &Type, ty: &Type) -> bool {
    Ctx::new().subtype(sub, ty).is_ok()
}

#[test]
fn primitives() {
    assert!(holds(&Type::Number, &Type::Number));
    assert!(holds(&Type::String, &Type::String));
    assert!(!holds(&Type::Number, &Type::String));
    assert!(holds(&Type::Variable(1), &Type::Variable(1)));
    assert!(!holds(&Type::Variable(1), &Type::Variable(2)));
}

#[test]
fn product_is_subtype_of_a_member() {
    let p = Type::Product(vec![Type::Number, Type::String]);
    assert!(holds(&p, &Type::String));
    assert!(holds(&Type::Product(vec![Type::String]), &p));
    assert!(!holds(&p, &Type::Product(vec![Type::String])));
    assert!(!holds(&Type::Product(vec![Type::Number]), &Type::Product(vec![Type::String])));
}

#[test]
fn member_is_subtype_of_sum() {
    let s = Type::Sum(vec![Type::Number, Type::String]);
    assert!(holds(&Type::Number, &s));
    assert!(holds(&Type::Sum(vec![Type::Number, Type::String, Type::Variable(3)]), &s));
    assert!(!holds(&Type::Sum(vec![Type::Number]), &s));
    assert!(!holds(&Type::Variable(5), &s));
}

#[test]
fn containers_and_labels() {
    assert!(holds(&Type::Vector(b(Type::Number)), &Type::Vector(b(Type::Number))));
    assert!(!holds(&Type::SetOf(b(Type::Number)), &Type::Vector(b(Type::Number))));
    let labelled = Type::Label { label: String::from("age"), item: b(Type::Number) };
    assert!(holds(&Type::Number, &labelled));
    assert!(holds(&labelled, &Type::Number));
    let branded = Type::Brand { brand: String::from("id"), item: b(Type::Number) };
    assert!(holds(&branded, &Type::Number));
    assert!(!holds(&Type::Number, &branded));
}

#[test]
fn existential_is_solved() {
    let ctx = Ctx::new().subtype(&Type::Existential(1), &Type::Number).unwrap();
    assert!(ctx.subtype(&Type::Existential(1), &Type::Number).is_ok());
    match ctx.subtype(&Type::Existential(1), &Type::String) {
        Err(TypeError::NotSubtype { .. }) => {}
        other => panic!("expected a failure, got {:?}", other),
    }
}

#[test]
fn circular_existential_is_refused() {
    let r = Ctx::new().subtype(&Type::Existential(4), &Type::Vector(b(Type::Existential(4))));
    match r {
        Err(TypeError::CircularExistential { id, .. }) => assert_eq!(id, 4),
        other => panic!("expected a circular existential, got {:?}", other),
    }
}

#[test]
fn functions_thread_the_context() {
    let f = Type::Function { parameter: b(Type::Existential(1)), body: b(Type::Existential(1)) };
    let g = Type::Function { parameter: b(Type::Number), body: b(Type::Number) };
    assert!(holds(&f, &g));
    let h = Type::Function { parameter: b(Type::Number), body: b(Type::String) };
    assert!(!holds(&f, &h));
}

#[test]
fn context_keeps_added_logs() {
    let ctx = Ctx::new().add(Log::Variable(1)).add(Log::Solved(2, Type::String));
    assert!(ctx.subtype(&Type::Existential(2), &Type::String).is_ok());
    assert!(ctx.subtype(&Type::Existential(2), &Type::Number).is_err());
}

#[test]
fn polymorphic_function_is_instantiated() {
    let identity = Type::ForAll {
        variable: 9,
        body: b(Type::Function { parameter: b(Type::Variable(9)), body: b(Type::Variable(9)) }),
    };
    let numbers = Type::Function { parameter: b(Type::Number), body: b(Type::Number) };
    assert!(holds(&identity, &numbers));
    let mixed = Type::Function { parameter: b(Type::Number), body: b(Type::String) };
    assert!(!holds(&identity, &mixed));
}

#[test]
fn polymorphic_supertype_keeps_variable_abstract() {
    let anything = Type::ForAll { variable: 2, body: b(Type::Variable(2)) };
    assert!(!holds(&Type::Number, &anything));
    let constant = Type::ForAll { variable: 2, body: b(Type::Number) };
    assert!(holds(&Type::Number, &constant));
    assert!(holds(&Type::Variable(2), &anything));
}
