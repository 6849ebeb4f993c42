use vstd::prelude::*;

verus! {

broadcast use vstd::std_specs::vec::group_vec_axioms;

/// Identity of a type variable or of an existential.
pub type TypeVar = u64;

/// A type of the language.
#[derive(Debug)]
pub enum Type {
    Number,
    String,
    Product(Vec<Type>),
    Sum(Vec<Type>),
    Function { parameter: Box<Type>, body: Box<Type> },
    Vector(Box<Type>),
    SetOf(Box<Type>),
    Variable(TypeVar),
    ForAll { variable: TypeVar, body: Box<Type> },
    Label { label: String, item: Box<Type> },
    Brand { brand: String, item: Box<Type> },
    /// A type still to be solved.
    Existential(TypeVar),
}

/// The abstract counterpart of `Type`.
pub enum TypeModel {
    Number,
    String,
    Product(Seq<TypeModel>),
    Sum(Seq<TypeModel>),
    Function { parameter: Box<TypeModel>, body: Box<TypeModel> },
    Vector(Box<TypeModel>),
    SetOf(Box<TypeModel>),
    Variable(TypeVar),
    ForAll { variable: TypeVar, body: Box<TypeModel> },
    Label { label: Seq<char>, item: Box<TypeModel> },
    Brand { brand: Seq<char>, item: Box<TypeModel> },
    Existential(TypeVar),
}

/// The models of `ts`, in order.
pub open spec fn models(ts: Vec<Type>) -> Seq<TypeModel>
    decreases ts,
{
    Seq::new(ts.len() as nat, |i: int| if 0 <= i < ts.len() { model(ts[i]) } else { TypeModel::Number })
}

pub proof fn lemma_models(ts: Vec<Type>)
    ensures
        models(ts).len() == ts.len(),
        forall|j: int| 0 <= j < ts.len() ==> #[trigger] models(ts)[j] == model(ts[j]),
{
}

/// The abstract value of a type.
pub open spec fn model(t: Type) -> TypeModel
    decreases t,
{
    match t {
        Type::Number => TypeModel::Number,
        Type::String => TypeModel::String,
        Type::Product(ts) => TypeModel::Product(models(ts)),
        Type::Sum(ts) => TypeModel::Sum(models(ts)),
        Type::Function { parameter, body } => TypeModel::Function {
            parameter: Box::new(model(*parameter)),
            body: Box::new(model(*body)),
        },
        Type::Vector(t) => TypeModel::Vector(Box::new(model(*t))),
        Type::SetOf(t) => TypeModel::SetOf(Box::new(model(*t))),
        Type::Variable(v) => TypeModel::Variable(v),
        Type::ForAll { variable, body } => TypeModel::ForAll {
            variable,
            body: Box::new(model(*body)),
        },
        Type::Label { label, item } => TypeModel::Label { label: label@, item: Box::new(model(*item)) },
        Type::Brand { brand, item } => TypeModel::Brand { brand: brand@, item: Box::new(model(*item)) },
        Type::Existential(v) => TypeModel::Existential(v),
    }
}

/// The largest element of `s`, or 0.
pub open spec fn seq_max(s: Seq<nat>) -> nat
    decreases s.len(),
{
    if s.len() == 0 {
        0
    } else if s.last() > seq_max(s.drop_last()) {
        s.last()
    } else {
        seq_max(s.drop_last())
    }
}

pub proof fn lemma_seq_max_bounds(s: Seq<nat>, i: int)
    requires
        0 <= i < s.len(),
    ensures
        s[i] <= seq_max(s),
    decreases s.len(),
{
    if i < s.len() - 1 {
        lemma_seq_max_bounds(s.drop_last(), i);
    }
}

/// The heights of `ts`, in order.
pub open spec fn heights(ts: Seq<TypeModel>) -> Seq<nat>
    decreases ts,
{
    Seq::new(ts.len(), |i: int| if 0 <= i < ts.len() { height(ts[i]) } else { 0 })
}

/// How deeply a type nests.
pub open spec fn height(t: TypeModel) -> nat
    decreases t,
{
    match t {
        TypeModel::Product(ts) => 1 + seq_max(heights(ts)),
        TypeModel::Sum(ts) => 1 + seq_max(heights(ts)),
        TypeModel::Function { parameter, body } => 1 + if height(*parameter) > height(*body) {
            height(*parameter)
        } else {
            height(*body)
        },
        TypeModel::Vector(t) => 1 + height(*t),
        TypeModel::SetOf(t) => 1 + height(*t),
        TypeModel::ForAll { body, .. } => 1 + height(*body),
        TypeModel::Label { item, .. } => 1 + height(*item),
        TypeModel::Brand { item, .. } => 1 + height(*item),
        _ => 0,
    }
}

pub proof fn lemma_member_height(ts: Seq<TypeModel>, i: int)
    requires
        0 <= i < ts.len(),
    ensures
        height(ts[i]) <= seq_max(heights(ts)),
{
    assert(heights(ts)[i] == height(ts[i]));
    lemma_seq_max_bounds(heights(ts), i);
}

/// Whether existential `id` occurs in one of the first `k` members of `ts`.
pub open spec fn occurs_in_any(id: TypeVar, ts: Seq<TypeModel>, k: nat) -> bool
    decreases ts, k,
{
    if k == 0 || k > ts.len() {
        false
    } else {
        occurs_in_any(id, ts, (k - 1) as nat) || occurs_in(id, ts[k - 1])
    }
}

/// Whether existential `id` occurs in `t`.
pub open spec fn occurs_in(id: TypeVar, t: TypeModel) -> bool
    decreases t, 0nat,
{
    match t {
        TypeModel::Existential(v) => v == id,
        TypeModel::Product(ts) => occurs_in_any(id, ts, ts.len()),
        TypeModel::Sum(ts) => occurs_in_any(id, ts, ts.len()),
        TypeModel::Function { parameter, body } => occurs_in(id, *parameter) || occurs_in(id, *body),
        TypeModel::Vector(t) => occurs_in(id, *t),
        TypeModel::SetOf(t) => occurs_in(id, *t),
        TypeModel::ForAll { body, .. } => occurs_in(id, *body),
        TypeModel::Label { item, .. } => occurs_in(id, *item),
        TypeModel::Brand { item, .. } => occurs_in(id, *item),
        _ => false,
    }
}

fn occurs_in_all(id: TypeVar, ts: &Vec<Type>) -> (r: bool)
    ensures
        r == occurs_in_any(id, models(*ts), ts.len() as nat),
    decreases ts,
{
    proof {
        lemma_models(*ts);
    }
    let mut found = false;
    let mut i: usize = 0;
    while i < ts.len()
        invariant
            i <= ts.len(),
            models(*ts).len() == ts.len(),
            forall|j: int| 0 <= j < ts.len() ==> #[trigger] models(*ts)[j] == model(ts[j]),
            found == occurs_in_any(id, models(*ts), i as nat),
        decreases ts.len() - i,
    {
        proof {
            assert(decreases_to!(*ts => ts[i as int]));
        }
        let here = check_occurs(id, &ts[i]);
        found = found || here;
        i = i + 1;
    }
    found
}

/// Whether existential `id` occurs in `t`.
pub fn check_occurs(id: TypeVar, t: &Type) -> (r: bool)
    ensures
        r == occurs_in(id, model(*t)),
    decreases t,
{
    match t {
        Type::Existential(v) => *v == id,
        Type::Product(ts) => occurs_in_all(id, ts),
        Type::Sum(ts) => occurs_in_all(id, ts),
        Type::Function { parameter, body } => {
            let in_parameter = check_occurs(id, parameter);
            let in_body = check_occurs(id, body);
            in_parameter || in_body
        },
        Type::Vector(t) => check_occurs(id, t),
        Type::SetOf(t) => check_occurs(id, t),
        Type::ForAll { body, .. } => check_occurs(id, body),
        Type::Label { item, .. } => check_occurs(id, item),
        Type::Brand { item, .. } => check_occurs(id, item),
        _ => false,
    }
}

/// `t` with the free occurrences of variable `v` replaced by `e`, member
/// by member.
pub open spec fn substitute_all(ts: Seq<TypeModel>, v: TypeVar, e: TypeModel) -> Seq<TypeModel>
    decreases ts,
{
    Seq::new(ts.len(), |i: int| if 0 <= i < ts.len() { substitute(ts[i], v, e) } else { TypeModel::Number })
}

/// `t` with the free occurrences of variable `v` replaced by `e`.
pub open spec fn substitute(t: TypeModel, v: TypeVar, e: TypeModel) -> TypeModel
    decreases t,
{
    match t {
        TypeModel::Variable(x) => if x == v {
            e
        } else {
            t
        },
        TypeModel::Product(ts) => TypeModel::Product(substitute_all(ts, v, e)),
        TypeModel::Sum(ts) => TypeModel::Sum(substitute_all(ts, v, e)),
        TypeModel::Function { parameter, body } => TypeModel::Function {
            parameter: Box::new(substitute(*parameter, v, e)),
            body: Box::new(substitute(*body, v, e)),
        },
        TypeModel::Vector(t) => TypeModel::Vector(Box::new(substitute(*t, v, e))),
        TypeModel::SetOf(t) => TypeModel::SetOf(Box::new(substitute(*t, v, e))),
        TypeModel::ForAll { variable, body } => if variable == v {
            t
        } else {
            TypeModel::ForAll { variable, body: Box::new(substitute(*body, v, e)) }
        },
        TypeModel::Label { label, item } => TypeModel::Label {
            label,
            item: Box::new(substitute(*item, v, e)),
        },
        TypeModel::Brand { brand, item } => TypeModel::Brand {
            brand,
            item: Box::new(substitute(*item, v, e)),
        },
        _ => t,
    }
}

/// Replacing a variable by a type that does not nest keeps the height.
pub proof fn lemma_substitute_height(t: TypeModel, v: TypeVar, e: TypeModel)
    requires
        height(e) == 0,
    ensures
        height(substitute(t, v, e)) == height(t),
    decreases t,
{
    match t {
        TypeModel::Product(ts) | TypeModel::Sum(ts) => {
            assert forall|i: int| 0 <= i < ts.len() implies #[trigger] heights(substitute_all(ts, v, e))[i]
                == heights(ts)[i] by {
                lemma_substitute_height(ts[i], v, e);
            }
            assert(heights(substitute_all(ts, v, e)) =~= heights(ts));
        },
        TypeModel::Function { parameter, body } => {
            lemma_substitute_height(*parameter, v, e);
            lemma_substitute_height(*body, v, e);
        },
        TypeModel::Vector(t) | TypeModel::SetOf(t) => {
            lemma_substitute_height(*t, v, e);
        },
        TypeModel::ForAll { variable, body } => {
            lemma_substitute_height(*body, v, e);
        },
        TypeModel::Label { item, .. } | TypeModel::Brand { item, .. } => {
            lemma_substitute_height(*item, v, e);
        },
        _ => {},
    }
}

fn same_types(xs: &Vec<Type>, ys: &Vec<Type>) -> (r: bool)
    ensures
        r == (xs.len() == ys.len() && forall|j: int|
            0 <= j < xs.len() ==> #[trigger] model(xs[j]) == model(ys[j])),
    decreases xs,
{
    if xs.len() != ys.len() {
        return false;
    }
    let mut i: usize = 0;
    while i < xs.len()
        invariant
            i <= xs.len(),
            xs.len() == ys.len(),
            forall|j: int| 0 <= j < i ==> #[trigger] model(xs[j]) == model(ys[j]),
        decreases xs.len() - i,
    {
        proof {
            assert(decreases_to!(*xs => xs[i as int]));
        }
        if !same_type(&xs[i], &ys[i]) {
            return false;
        }
        i = i + 1;
    }
    true
}

/// Whether two types are the same.
pub fn same_type(a: &Type, b: &Type) -> (r: bool)
    ensures
        r == (model(*a) == model(*b)),
    decreases a,
{
    match (a, b) {
        (Type::Number, Type::Number) => true,
        (Type::String, Type::String) => true,
        (Type::Product(xs), Type::Product(ys)) => {
            let r = same_types(xs, ys);
            proof {
                lemma_models(*xs);
                lemma_models(*ys);
                if r {
                    assert(model(*a)->Product_0 =~= model(*b)->Product_0);
                } else if xs.len() == ys.len() {
                    let j = choose|j: int| 0 <= j < xs.len() && #[trigger] model(xs[j]) != model(ys[j]);
                    assert(model(*a)->Product_0[j] != model(*b)->Product_0[j]);
                } else {
                    assert(model(*a)->Product_0.len() != model(*b)->Product_0.len());
                }
            }
            r
        },
        (Type::Sum(xs), Type::Sum(ys)) => {
            let r = same_types(xs, ys);
            proof {
                lemma_models(*xs);
                lemma_models(*ys);
                if r {
                    assert(model(*a)->Sum_0 =~= model(*b)->Sum_0);
                } else if xs.len() == ys.len() {
                    let j = choose|j: int| 0 <= j < xs.len() && #[trigger] model(xs[j]) != model(ys[j]);
                    assert(model(*a)->Sum_0[j] != model(*b)->Sum_0[j]);
                } else {
                    assert(model(*a)->Sum_0.len() != model(*b)->Sum_0.len());
                }
            }
            r
        },
        (Type::Function { parameter: p1, body: b1 }, Type::Function { parameter: p2, body: b2 }) => {
            let same_parameter = same_type(p1, p2);
            let same_body = same_type(b1, b2);
            same_parameter && same_body
        },
        (Type::Vector(x), Type::Vector(y)) => same_type(x, y),
        (Type::SetOf(x), Type::SetOf(y)) => same_type(x, y),
        (Type::Variable(x), Type::Variable(y)) => *x == *y,
        (Type::ForAll { variable: x, body: b1 }, Type::ForAll { variable: y, body: b2 }) => {
            let same_variable = *x == *y;
            let same_body = same_type(b1, b2);
            same_variable && same_body
        },
        (Type::Label { label: l1, item: i1 }, Type::Label { label: l2, item: i2 }) => {
            let same_label = *l1 == *l2;
            let same_item = same_type(i1, i2);
            same_label && same_item
        },
        (Type::Brand { brand: l1, item: i1 }, Type::Brand { brand: l2, item: i2 }) => {
            let same_brand = *l1 == *l2;
            let same_item = same_type(i1, i2);
            same_brand && same_item
        },
        (Type::Existential(x), Type::Existential(y)) => *x == *y,
        _ => false,
    }
}

fn duplicate_all(ts: &Vec<Type>) -> (r: Vec<Type>)
    ensures
        r.len() == ts.len(),
        forall|j: int| 0 <= j < ts.len() ==> #[trigger] model(r[j]) == model(ts[j]),
    decreases ts,
{
    let mut r: Vec<Type> = Vec::new();
    let mut i: usize = 0;
    while i < ts.len()
        invariant
            i <= ts.len(),
            r.len() == i,
            forall|j: int| 0 <= j < i ==> #[trigger] model(r[j]) == model(ts[j]),
        decreases ts.len() - i,
    {
        proof {
            assert(decreases_to!(*ts => ts[i as int]));
        }
        r.push(ts[i].duplicate());
        i = i + 1;
    }
    r
}

impl Type {
    /// A copy of the type.
    pub fn duplicate(&self) -> (r: Type)
        ensures
            model(r) == model(*self),
        decreases self,
    {
        match self {
            Type::Number => Type::Number,
            Type::String => Type::String,
            Type::Product(ts) => {
                let r = Type::Product(duplicate_all(ts));
                proof {
                    lemma_models(*ts);
                    lemma_models(r->Product_0);
                }
                assert(model(r)->Product_0 =~= model(*self)->Product_0);
                r
            },
            Type::Sum(ts) => {
                let r = Type::Sum(duplicate_all(ts));
                proof {
                    lemma_models(*ts);
                    lemma_models(r->Sum_0);
                }
                assert(model(r)->Sum_0 =~= model(*self)->Sum_0);
                r
            },
            Type::Function { parameter, body } => Type::Function {
                parameter: Box::new(parameter.duplicate()),
                body: Box::new(body.duplicate()),
            },
            Type::Vector(t) => Type::Vector(Box::new(t.duplicate())),
            Type::SetOf(t) => Type::SetOf(Box::new(t.duplicate())),
            Type::Variable(v) => Type::Variable(*v),
            Type::ForAll { variable, body } => Type::ForAll {
                variable: *variable,
                body: Box::new(body.duplicate()),
            },
            Type::Label { label, item } => Type::Label {
                label: label.clone(),
                item: Box::new(item.duplicate()),
            },
            Type::Brand { brand, item } => Type::Brand {
                brand: brand.clone(),
                item: Box::new(item.duplicate()),
            },
            Type::Existential(v) => Type::Existential(*v),
        }
    }
}

fn substitute_existential_all(ts: &Vec<Type>, v: TypeVar, a: TypeVar) -> (r: Vec<Type>)
    ensures
        models(r) == substitute_all(models(*ts), v, TypeModel::Existential(a)),
    decreases ts,
{
    proof {
        lemma_models(*ts);
    }
    let mut r: Vec<Type> = Vec::new();
    let mut i: usize = 0;
    while i < ts.len()
        invariant
            i <= ts.len(),
            r.len() == i,
            models(*ts).len() == ts.len(),
            forall|j: int| 0 <= j < ts.len() ==> #[trigger] models(*ts)[j] == model(ts[j]),
            forall|j: int|
                0 <= j < i ==> #[trigger] model(r[j]) == substitute(
                    model(ts[j]),
                    v,
                    TypeModel::Existential(a),
                ),
        decreases ts.len() - i,
    {
        proof {
            assert(decreases_to!(*ts => ts[i as int]));
        }
        r.push(substitute_existential(&ts[i], v, a));
        i = i + 1;
    }
    proof {
        lemma_models(r);
    }
    assert(models(r) =~= substitute_all(models(*ts), v, TypeModel::Existential(a)));
    r
}

/// `t` with the free occurrences of variable `v` replaced by existential `a`.
pub fn substitute_existential(t: &Type, v: TypeVar, a: TypeVar) -> (r: Type)
    ensures
        model(r) == substitute(model(*t), v, TypeModel::Existential(a)),
    decreases t,
{
    match t {
        Type::Variable(x) => if *x == v {
            Type::Existential(a)
        } else {
            Type::Variable(*x)
        },
        Type::Product(ts) => Type::Product(substitute_existential_all(ts, v, a)),
        Type::Sum(ts) => Type::Sum(substitute_existential_all(ts, v, a)),
        Type::Function { parameter, body } => Type::Function {
            parameter: Box::new(substitute_existential(parameter, v, a)),
            body: Box::new(substitute_existential(body, v, a)),
        },
        Type::Vector(t) => Type::Vector(Box::new(substitute_existential(t, v, a))),
        Type::SetOf(t) => Type::SetOf(Box::new(substitute_existential(t, v, a))),
        Type::ForAll { variable, body } => if *variable == v {
            t.duplicate()
        } else {
            Type::ForAll { variable: *variable, body: Box::new(substitute_existential(body, v, a)) }
        },
        Type::Label { label, item } => Type::Label {
            label: label.clone(),
            item: Box::new(substitute_existential(item, v, a)),
        },
        Type::Brand { brand, item } => Type::Brand {
            brand: brand.clone(),
            item: Box::new(substitute_existential(item, v, a)),
        },
        _ => t.duplicate(),
    }
}

} // verus!
