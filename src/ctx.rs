use vstd::prelude::*;

use crate::ty::{
    check_occurs, height, heights, lemma_member_height, lemma_models, lemma_substitute_height, model,
    models, occurs_in, same_type, seq_max, substitute, substitute_existential, Type, TypeModel,
    TypeVar,
};

verus! {

broadcast use vstd::std_specs::vec::group_vec_axioms;

/// An entry of the checking context.
#[derive(Debug)]
pub enum Log {
    Variable(TypeVar),
    Existential(TypeVar),
    /// An existential and the type it was solved with.
    Solved(TypeVar, Type),
    /// Where the scope of an existential begins.
    Marker(TypeVar),
}

pub enum LogModel {
    Variable(TypeVar),
    Existential(TypeVar),
    Solved(TypeVar, TypeModel),
    Marker(TypeVar),
}

pub open spec fn log_model(l: Log) -> LogModel {
    match l {
        Log::Variable(v) => LogModel::Variable(v),
        Log::Existential(v) => LogModel::Existential(v),
        Log::Solved(v, t) => LogModel::Solved(v, model(t)),
        Log::Marker(v) => LogModel::Marker(v),
    }
}

impl Log {
    pub fn duplicate(&self) -> (r: Log)
        ensures
            log_model(r) == log_model(*self),
    {
        match self {
            Log::Variable(v) => Log::Variable(*v),
            Log::Existential(v) => Log::Existential(*v),
            Log::Solved(v, t) => Log::Solved(*v, t.duplicate()),
            Log::Marker(v) => Log::Marker(*v),
        }
    }
}

/// The ordered context that type checking threads through.
#[derive(Debug)]
pub struct Ctx {
    logs: Vec<Log>,
    /// The id the next fresh existential gets.
    fresh: TypeVar,
}

/// The abstract state of a context.
pub struct CtxModel {
    pub logs: Seq<LogModel>,
    pub fresh: TypeVar,
}

impl View for Ctx {
    type V = CtxModel;

    closed spec fn view(&self) -> CtxModel {
        CtxModel {
            logs: Seq::new(self.logs.len() as nat, |i: int| log_model(self.logs[i])),
            fresh: self.fresh,
        }
    }
}

/// Why a subtyping check failed.
#[derive(Debug)]
pub enum TypeError {
    NotSubtype { sub: Type, ty: Type },
    CircularExistential { id: TypeVar, ty: Type },
}

/// The abstract result of a subtyping check.
pub enum SubtypeOutcome {
    /// It holds, with the context that follows.
    Holds(CtxModel),
    NotSubtype { sub: TypeModel, ty: TypeModel },
    CircularExistential { id: TypeVar, ty: TypeModel },
}

pub open spec fn outcome(r: Result<Ctx, TypeError>) -> SubtypeOutcome {
    match r {
        Ok(c) => SubtypeOutcome::Holds(c@),
        Err(TypeError::NotSubtype { sub, ty }) => SubtypeOutcome::NotSubtype {
            sub: model(sub),
            ty: model(ty),
        },
        Err(TypeError::CircularExistential { id, ty }) => SubtypeOutcome::CircularExistential {
            id,
            ty: model(ty),
        },
    }
}

/// The type existential `id` was last solved with in `logs`.
pub open spec fn solution(logs: Seq<LogModel>, id: TypeVar) -> Option<TypeModel>
    decreases logs.len(),
{
    if logs.len() == 0 {
        None
    } else {
        match logs.last() {
            LogModel::Solved(v, t) => if v == id {
                Some(t)
            } else {
                solution(logs.drop_last(), id)
            },
            _ => solution(logs.drop_last(), id),
        }
    }
}

/// Solving existential `id` with `t`: an unsolved one gets `t`; a solved
/// one must already stand for `t`, otherwise the check fails with `failure`.
pub open spec fn instantiate(c: CtxModel, id: TypeVar, t: TypeModel, failure: SubtypeOutcome) -> SubtypeOutcome {
    match solution(c.logs, id) {
        Some(s) => if s == t {
            SubtypeOutcome::Holds(c)
        } else {
            failure
        },
        None => SubtypeOutcome::Holds(CtxModel { logs: c.logs.push(LogModel::Solved(id, t)), ..c }),
    }
}

/// `logs` cut before the first entry at or after `i` that is `l`; all of
/// `logs` when there is none.
pub open spec fn truncate_at(logs: Seq<LogModel>, l: LogModel, i: nat) -> Seq<LogModel>
    decreases logs.len() - i,
{
    if i >= logs.len() {
        logs
    } else if logs[i as int] == l {
        logs.take(i as int)
    } else {
        truncate_at(logs, l, i + 1)
    }
}

/// The context with everything from `l` on dropped.
pub open spec fn truncate_from(c: CtxModel, l: LogModel) -> CtxModel {
    CtxModel { logs: truncate_at(c.logs, l, 0), ..c }
}

/// Whether each of the first `k` members of `ss` is a subtype of some
/// member of `ts`.
pub open spec fn all_covered(c: CtxModel, ss: Seq<TypeModel>, ts: Seq<TypeModel>, k: nat) -> bool
    decreases seq_max(heights(ss)) + seq_max(heights(ts)) + 1, k,
{
    if k == 0 {
        true
    } else if k > ss.len() {
        false
    } else {
        proof {
            lemma_member_height(ss, k - 1);
        }
        all_covered(c, ss, ts, (k - 1) as nat) && any_supertype(c, ss[k - 1], ts, ts.len())
    }
}

/// Whether `s` is a subtype of one of the first `m` members of `ts`.
pub open spec fn any_supertype(c: CtxModel, s: TypeModel, ts: Seq<TypeModel>, m: nat) -> bool
    decreases height(s) + seq_max(heights(ts)), m,
{
    if m == 0 || m > ts.len() {
        false
    } else {
        proof {
            lemma_member_height(ts, m - 1);
        }
        any_supertype(c, s, ts, (m - 1) as nat) || subtype_model(c, s, ts[m - 1]) is Holds
    }
}

/// The context from the first of the first `k` members of `ss` that is a
/// subtype of `ty`.
pub open spec fn first_subtype(c: CtxModel, ss: Seq<TypeModel>, ty: TypeModel, k: nat) -> Option<CtxModel>
    decreases seq_max(heights(ss)) + height(ty), k,
{
    if k == 0 || k > ss.len() {
        None
    } else {
        proof {
            lemma_member_height(ss, k - 1);
        }
        match first_subtype(c, ss, ty, (k - 1) as nat) {
            Some(d) => Some(d),
            None => match subtype_model(c, ss[k - 1], ty) {
                SubtypeOutcome::Holds(d) => Some(d),
                _ => None,
            },
        }
    }
}

/// Whether each of the first `k` members of `ts` is a supertype of some
/// member of `ss`.
pub open spec fn all_reached(c: CtxModel, ss: Seq<TypeModel>, ts: Seq<TypeModel>, k: nat) -> bool
    decreases seq_max(heights(ss)) + seq_max(heights(ts)) + 1, k,
{
    if k == 0 {
        true
    } else if k > ts.len() {
        false
    } else {
        proof {
            lemma_member_height(ts, k - 1);
        }
        all_reached(c, ss, ts, (k - 1) as nat) && any_subtype(c, ss, ts[k - 1], ss.len())
    }
}

/// Whether one of the first `m` members of `ss` is a subtype of `t`.
pub open spec fn any_subtype(c: CtxModel, ss: Seq<TypeModel>, t: TypeModel, m: nat) -> bool
    decreases seq_max(heights(ss)) + height(t), m,
{
    if m == 0 || m > ss.len() {
        false
    } else {
        proof {
            lemma_member_height(ss, m - 1);
        }
        any_subtype(c, ss, t, (m - 1) as nat) || subtype_model(c, ss[m - 1], t) is Holds
    }
}

/// The context from the first of the first `k` members of `ts` that `sub`
/// is a subtype of.
pub open spec fn first_supertype(c: CtxModel, sub: TypeModel, ts: Seq<TypeModel>, k: nat) -> Option<CtxModel>
    decreases height(sub) + seq_max(heights(ts)), k,
{
    if k == 0 || k > ts.len() {
        None
    } else {
        proof {
            lemma_member_height(ts, k - 1);
        }
        match first_supertype(c, sub, ts, (k - 1) as nat) {
            Some(d) => Some(d),
            None => match subtype_model(c, sub, ts[k - 1]) {
                SubtypeOutcome::Holds(d) => Some(d),
                _ => None,
            },
        }
    }
}

/// Whether `sub` is a subtype of `ty` in context `c`, and the context that
/// follows.
pub open spec fn subtype_model(c: CtxModel, sub: TypeModel, ty: TypeModel) -> SubtypeOutcome
    decreases height(sub) + height(ty), 0nat,
{
    let not_subtype = SubtypeOutcome::NotSubtype { sub, ty };
    if sub is Variable && ty is Variable && sub->Variable_0 == ty->Variable_0 {
        SubtypeOutcome::Holds(c)
    } else if sub is Number && ty is Number {
        SubtypeOutcome::Holds(c)
    } else if sub is String && ty is String {
        SubtypeOutcome::Holds(c)
    } else if sub is Existential && ty is Existential && sub->Existential_0 == ty->Existential_0 {
        SubtypeOutcome::Holds(c)
    } else if sub is Existential {
        let id = sub->Existential_0;
        if occurs_in(id, ty) {
            SubtypeOutcome::CircularExistential { id, ty }
        } else {
            instantiate(c, id, ty, not_subtype)
        }
    } else if ty is Existential {
        let id = ty->Existential_0;
        if occurs_in(id, sub) {
            SubtypeOutcome::CircularExistential { id, ty }
        } else {
            instantiate(c, id, sub, not_subtype)
        }
    } else if sub is Product && ty is Product {
        if all_covered(c, sub->Product_0, ty->Product_0, sub->Product_0.len()) {
            SubtypeOutcome::Holds(c)
        } else {
            not_subtype
        }
    } else if sub is Product {
        match first_subtype(c, sub->Product_0, ty, sub->Product_0.len()) {
            Some(d) => SubtypeOutcome::Holds(d),
            None => not_subtype,
        }
    } else if sub is Sum && ty is Sum {
        if all_reached(c, sub->Sum_0, ty->Sum_0, ty->Sum_0.len()) {
            SubtypeOutcome::Holds(c)
        } else {
            not_subtype
        }
    } else if ty is Sum {
        match first_supertype(c, sub, ty->Sum_0, ty->Sum_0.len()) {
            Some(d) => SubtypeOutcome::Holds(d),
            None => not_subtype,
        }
    } else if sub is Function && ty is Function {
        match subtype_model(c, *sub->Function_parameter, *ty->Function_parameter) {
            SubtypeOutcome::Holds(theta) => subtype_model(theta, *ty->Function_body, *sub->Function_body),
            failure => failure,
        }
    } else if sub is Vector && ty is Vector {
        subtype_model(c, *sub->Vector_0, *ty->Vector_0)
    } else if sub is SetOf && ty is SetOf {
        subtype_model(c, *sub->SetOf_0, *ty->SetOf_0)
    } else if sub is ForAll {
        if c.fresh == u64::MAX {
            not_subtype
        } else {
            let a = c.fresh;
            let inner = CtxModel {
                logs: c.logs.push(LogModel::Marker(a)).push(LogModel::Existential(a)),
                fresh: (a + 1) as u64,
            };
            let instance = substitute(*sub->ForAll_body, sub->ForAll_variable, TypeModel::Existential(a));
            proof {
                lemma_substitute_height(*sub->ForAll_body, sub->ForAll_variable, TypeModel::Existential(a));
            }
            match subtype_model(inner, instance, ty) {
                SubtypeOutcome::Holds(d) => SubtypeOutcome::Holds(truncate_from(d, LogModel::Marker(a))),
                failure => failure,
            }
        }
    } else if ty is ForAll {
        let v = ty->ForAll_variable;
        match subtype_model(CtxModel { logs: c.logs.push(LogModel::Variable(v)), ..c }, sub, *ty->ForAll_body) {
            SubtypeOutcome::Holds(d) => SubtypeOutcome::Holds(truncate_from(d, LogModel::Variable(v))),
            failure => failure,
        }
    } else if ty is Label {
        subtype_model(c, sub, *ty->Label_item)
    } else if sub is Label {
        subtype_model(c, *sub->Label_item, ty)
    } else if sub is Brand {
        subtype_model(c, *sub->Brand_item, ty)
    } else {
        not_subtype
    }
}

/// Whether two entries are the same.
fn same_log(a: &Log, b: &Log) -> (r: bool)
    ensures
        r == (log_model(*a) == log_model(*b)),
{
    match (a, b) {
        (Log::Variable(x), Log::Variable(y)) => *x == *y,
        (Log::Existential(x), Log::Existential(y)) => *x == *y,
        (Log::Solved(x, s), Log::Solved(y, t)) => {
            let same_id = *x == *y;
            let same_solution = same_type(s, t);
            same_id && same_solution
        },
        (Log::Marker(x), Log::Marker(y)) => *x == *y,
        _ => false,
    }
}

impl Ctx {
    pub fn new() -> (r: Ctx)
        ensures
            r@.logs == Seq::<LogModel>::empty(),
            r@.fresh == 0,
    {
        let r = Ctx { logs: Vec::new(), fresh: 0 };
        assert(r@.logs =~= Seq::<LogModel>::empty());
        r
    }

    /// The context with `log` appended.
    pub fn add(&self, log: Log) -> (r: Ctx)
        ensures
            r@ == (CtxModel { logs: self@.logs.push(log_model(log)), ..self@ }),
    {
        let mut r = self.duplicate();
        r.logs.push(log);
        assert(r@.logs =~= self@.logs.push(log_model(log)));
        r
    }

    /// A copy of the context.
    pub fn duplicate(&self) -> (r: Ctx)
        ensures
            r@ == self@,
    {
        let mut logs: Vec<Log> = Vec::new();
        let mut i: usize = 0;
        while i < self.logs.len()
            invariant
                i <= self.logs.len(),
                logs.len() == i,
                forall|j: int| 0 <= j < i ==> #[trigger] log_model(logs[j]) == log_model(self.logs[j]),
            decreases self.logs.len() - i,
        {
            logs.push(self.logs[i].duplicate());
            i = i + 1;
        }
        let r = Ctx { logs, fresh: self.fresh };
        assert(r@.logs =~= self@.logs);
        r
    }

    /// The context with everything from the first `l` on dropped.
    pub fn truncate_from(&self, l: &Log) -> (r: Ctx)
        ensures
            r@ == truncate_from(self@, log_model(*l)),
    {
        let mut logs: Vec<Log> = Vec::new();
        let mut i: usize = 0;
        while i < self.logs.len()
            invariant
                i <= self.logs.len(),
                logs.len() == i,
                forall|j: int| 0 <= j < i ==> #[trigger] log_model(logs[j]) == log_model(self.logs[j]),
                truncate_at(self@.logs, log_model(*l), i as nat) == truncate_at(
                    self@.logs,
                    log_model(*l),
                    0,
                ),
            decreases self.logs.len() - i,
        {
            if same_log(&self.logs[i], l) {
                let r = Ctx { logs, fresh: self.fresh };
                assert(r@.logs =~= self@.logs.take(i as int));
                return r;
            }
            logs.push(self.logs[i].duplicate());
            i = i + 1;
        }
        let r = Ctx { logs, fresh: self.fresh };
        assert(r@.logs =~= self@.logs);
        r
    }

    /// Whether existential `id` is unsolved (`None`), or solved with a type
    /// that is `t` or not.
    fn solved_as(&self, id: TypeVar, t: &Type) -> (r: Option<bool>)
        ensures
            r == (match solution(self@.logs, id) {
                Some(s) => Some(s == model(*t)),
                None => None,
            }),
    {
        let mut last: Option<usize> = None;
        let mut i: usize = 0;
        while i < self.logs.len()
            invariant
                i <= self.logs.len(),
                match last {
                    Some(j) => j < i && self.logs[j as int] is Solved && self.logs[j as int]->Solved_0
                        == id && solution(self@.logs.take(i as int), id) == Some(
                        model(self.logs[j as int]->Solved_1),
                    ),
                    None => solution(self@.logs.take(i as int), id) is None,
                },
            decreases self.logs.len() - i,
        {
            assert(self@.logs.take(i + 1).drop_last() =~= self@.logs.take(i as int));
            assert(self@.logs.take(i + 1).last() == log_model(self.logs[i as int]));
            match &self.logs[i] {
                Log::Solved(v, _) => {
                    if *v == id {
                        last = Some(i);
                    }
                },
                _ => {},
            }
            i = i + 1;
        }
        assert(self@.logs.take(i as int) =~= self@.logs);
        match last {
            Some(j) => match &self.logs[j] {
                Log::Solved(_, s) => Some(same_type(s, t)),
                _ => None,
            },
            None => None,
        }
    }

    fn instantiate_with(&self, id: TypeVar, t: &Type, sub: &Type, ty: &Type) -> (r: Result<Ctx, TypeError>)
        ensures
            outcome(r) == instantiate(
                self@,
                id,
                model(*t),
                SubtypeOutcome::NotSubtype { sub: model(*sub), ty: model(*ty) },
            ),
    {
        match self.solved_as(id, t) {
            Some(true) => Ok(self.duplicate()),
            Some(false) => Err(TypeError::NotSubtype { sub: sub.duplicate(), ty: ty.duplicate() }),
            None => Ok(self.add(Log::Solved(id, t.duplicate()))),
        }
    }

    fn not_subtype(sub: &Type, ty: &Type) -> (r: Result<Ctx, TypeError>)
        ensures
            outcome(r) == (SubtypeOutcome::NotSubtype { sub: model(*sub), ty: model(*ty) }),
    {
        Err(TypeError::NotSubtype { sub: sub.duplicate(), ty: ty.duplicate() })
    }

    /// Checks that `sub` is a subtype of `ty`, solving existentials on the
    /// way; returns the context that follows.
    pub fn subtype(&self, sub: &Type, ty: &Type) -> (r: Result<Ctx, TypeError>)
        ensures
            outcome(r) == subtype_model(self@, model(*sub), model(*ty)),
        decreases height(model(*sub)) + height(model(*ty)),
    {
        if let (Type::Variable(a), Type::Variable(b)) = (sub, ty) {
            if *a == *b {
                return Ok(self.duplicate());
            }
        }
        if let (Type::Number, Type::Number) = (sub, ty) {
            return Ok(self.duplicate());
        }
        if let (Type::String, Type::String) = (sub, ty) {
            return Ok(self.duplicate());
        }
        if let (Type::Existential(a), Type::Existential(b)) = (sub, ty) {
            if *a == *b {
                return Ok(self.duplicate());
            }
        }
        if let Type::Existential(id) = sub {
            if check_occurs(*id, ty) {
                return Err(TypeError::CircularExistential { id: *id, ty: ty.duplicate() });
            }
            return self.instantiate_with(*id, ty, sub, ty);
        }
        if let Type::Existential(id) = ty {
            if check_occurs(*id, sub) {
                return Err(TypeError::CircularExistential { id: *id, ty: ty.duplicate() });
            }
            return self.instantiate_with(*id, sub, sub, ty);
        }
        if let (Type::Product(ss), Type::Product(ts)) = (sub, ty) {
            proof {
                lemma_models(*ss);
                lemma_models(*ts);
            }
            let ghost sm = models(*ss);
            let ghost tm = models(*ts);
            let mut covered = true;
            let mut i: usize = 0;
            while i < ss.len()
                invariant
                    i <= ss.len(),
                    sm == models(*ss),
                    tm == models(*ts),
                    sm.len() == ss.len(),
                    tm.len() == ts.len(),
                    forall|j: int| 0 <= j < ss.len() ==> #[trigger] sm[j] == model(ss[j]),
                    forall|j: int| 0 <= j < ts.len() ==> #[trigger] tm[j] == model(ts[j]),
                    model(*sub) == TypeModel::Product(sm),
                    model(*ty) == TypeModel::Product(tm),
                    covered == all_covered(self@, sm, tm, i as nat),
                decreases ss.len() - i,
            {
                let mut found = false;
                let mut j: usize = 0;
                while j < ts.len()
                    invariant
                        i < ss.len(),
                        j <= ts.len(),
                        sm.len() == ss.len(),
                        tm.len() == ts.len(),
                        forall|k: int| 0 <= k < ss.len() ==> #[trigger] sm[k] == model(ss[k]),
                        forall|k: int| 0 <= k < ts.len() ==> #[trigger] tm[k] == model(ts[k]),
                        model(*sub) == TypeModel::Product(sm),
                        model(*ty) == TypeModel::Product(tm),
                        found == any_supertype(self@, sm[i as int], tm, j as nat),
                    decreases ts.len() - j,
                {
                    proof {
                        lemma_member_height(sm, i as int);
                        lemma_member_height(tm, j as int);
                    }
                    let holds = self.subtype(&ss[i], &ts[j]).is_ok();
                    found = found || holds;
                    j = j + 1;
                }
                covered = covered && found;
                i = i + 1;
            }
            if covered {
                return Ok(self.duplicate());
            } else {
                return Self::not_subtype(sub, ty);
            }
        }
        if let Type::Product(ss) = sub {
            proof {
                lemma_models(*ss);
            }
            let ghost sm = models(*ss);
            let mut i: usize = 0;
            while i < ss.len()
                invariant
                    i <= ss.len(),
                    sm.len() == ss.len(),
                    forall|j: int| 0 <= j < ss.len() ==> #[trigger] sm[j] == model(ss[j]),
                    model(*sub) == TypeModel::Product(sm),
                    first_subtype(self@, sm, model(*ty), i as nat) is None,
                    subtype_model(self@, model(*sub), model(*ty)) == (match first_subtype(
                        self@,
                        sm,
                        model(*ty),
                        sm.len(),
                    ) {
                        Some(d) => SubtypeOutcome::Holds(d),
                        None => SubtypeOutcome::NotSubtype { sub: model(*sub), ty: model(*ty) },
                    }),
                decreases ss.len() - i,
            {
                proof {
                    lemma_member_height(sm, i as int);
                }
                let r = self.subtype(&ss[i], ty);
                if r.is_ok() {
                    assert(first_subtype(self@, sm, model(*ty), (i + 1) as nat) == Some(outcome(r)->Holds_0));
                    assert(first_subtype(self@, sm, model(*ty), sm.len()) == Some(outcome(r)->Holds_0))
                        by {
                        lemma_first_subtype_stays(self@, sm, model(*ty), (i + 1) as nat, sm.len());
                    }
                    return r;
                }
                i = i + 1;
            }
            return Self::not_subtype(sub, ty);
        }
        if let (Type::Sum(ss), Type::Sum(ts)) = (sub, ty) {
            proof {
                lemma_models(*ss);
                lemma_models(*ts);
            }
            let ghost sm = models(*ss);
            let ghost tm = models(*ts);
            let mut reached = true;
            let mut i: usize = 0;
            while i < ts.len()
                invariant
                    i <= ts.len(),
                    sm.len() == ss.len(),
                    tm.len() == ts.len(),
                    forall|j: int| 0 <= j < ss.len() ==> #[trigger] sm[j] == model(ss[j]),
                    forall|j: int| 0 <= j < ts.len() ==> #[trigger] tm[j] == model(ts[j]),
                    model(*sub) == TypeModel::Sum(sm),
                    model(*ty) == TypeModel::Sum(tm),
                    reached == all_reached(self@, sm, tm, i as nat),
                decreases ts.len() - i,
            {
                let mut found = false;
                let mut j: usize = 0;
                while j < ss.len()
                    invariant
                        i < ts.len(),
                        j <= ss.len(),
                        sm.len() == ss.len(),
                        tm.len() == ts.len(),
                        forall|k: int| 0 <= k < ss.len() ==> #[trigger] sm[k] == model(ss[k]),
                        forall|k: int| 0 <= k < ts.len() ==> #[trigger] tm[k] == model(ts[k]),
                        model(*sub) == TypeModel::Sum(sm),
                        model(*ty) == TypeModel::Sum(tm),
                        found == any_subtype(self@, sm, tm[i as int], j as nat),
                    decreases ss.len() - j,
                {
                    proof {
                        lemma_member_height(sm, j as int);
                        lemma_member_height(tm, i as int);
                    }
                    let holds = self.subtype(&ss[j], &ts[i]).is_ok();
                    found = found || holds;
                    j = j + 1;
                }
                reached = reached && found;
                i = i + 1;
            }
            if reached {
                return Ok(self.duplicate());
            } else {
                return Self::not_subtype(sub, ty);
            }
        }
        if let Type::Sum(ts) = ty {
            proof {
                lemma_models(*ts);
            }
            let ghost tm = models(*ts);
            let mut i: usize = 0;
            while i < ts.len()
                invariant
                    i <= ts.len(),
                    tm.len() == ts.len(),
                    forall|j: int| 0 <= j < ts.len() ==> #[trigger] tm[j] == model(ts[j]),
                    model(*ty) == TypeModel::Sum(tm),
                    first_supertype(self@, model(*sub), tm, i as nat) is None,
                    subtype_model(self@, model(*sub), model(*ty)) == (match first_supertype(
                        self@,
                        model(*sub),
                        tm,
                        tm.len(),
                    ) {
                        Some(d) => SubtypeOutcome::Holds(d),
                        None => SubtypeOutcome::NotSubtype { sub: model(*sub), ty: model(*ty) },
                    }),
                decreases ts.len() - i,
            {
                proof {
                    lemma_member_height(tm, i as int);
                }
                let r = self.subtype(sub, &ts[i]);
                if r.is_ok() {
                    assert(first_supertype(self@, model(*sub), tm, (i + 1) as nat) == Some(outcome(r)->Holds_0));
                    assert(first_supertype(self@, model(*sub), tm, tm.len()) == Some(outcome(r)->Holds_0))
                        by {
                        lemma_first_supertype_stays(self@, model(*sub), tm, (i + 1) as nat, tm.len());
                    }
                    return r;
                }
                i = i + 1;
            }
            return Self::not_subtype(sub, ty);
        }
        if let (
            Type::Function { parameter: sub_parameter, body: sub_body },
            Type::Function { parameter, body },
        ) = (sub, ty) {
            let theta = self.subtype(sub_parameter, parameter)?;
            return theta.subtype(body, sub_body);
        }
        if let (Type::Vector(a), Type::Vector(b)) = (sub, ty) {
            return self.subtype(a, b);
        }
        if let (Type::SetOf(a), Type::SetOf(b)) = (sub, ty) {
            return self.subtype(a, b);
        }
        if let Type::ForAll { variable, body } = sub {
            if self.fresh == u64::MAX {
                return Self::not_subtype(sub, ty);
            }
            let a = self.fresh;
            let mut inner = self.add(Log::Marker(a)).add(Log::Existential(a));
            inner.fresh = a + 1;
            let instance = substitute_existential(body, *variable, a);
            proof {
                lemma_substitute_height(model(**body), *variable, TypeModel::Existential(a));
            }
            let after = inner.subtype(&instance, ty)?;
            return Ok(after.truncate_from(&Log::Marker(a)));
        }
        if let Type::ForAll { variable, body } = ty {
            let inner = self.add(Log::Variable(*variable));
            let after = inner.subtype(sub, body)?;
            return Ok(after.truncate_from(&Log::Variable(*variable)));
        }
        if let Type::Label { item, .. } = ty {
            return self.subtype(sub, item);
        }
        if let Type::Label { item, .. } = sub {
            return self.subtype(item, ty);
        }
        if let Type::Brand { item, .. } = sub {
            return self.subtype(item, ty);
        }
        Self::not_subtype(sub, ty)
    }
}

/// Once a member has been found, looking further finds the same one.
pub proof fn lemma_first_subtype_stays(c: CtxModel, ss: Seq<TypeModel>, ty: TypeModel, k: nat, n: nat)
    requires
        k <= n <= ss.len(),
        first_subtype(c, ss, ty, k) is Some,
    ensures
        first_subtype(c, ss, ty, n) == first_subtype(c, ss, ty, k),
    decreases n - k,
{
    if k < n {
        lemma_first_subtype_stays(c, ss, ty, k, (n - 1) as nat);
    }
}

/// Once a member has been found, looking further finds the same one.
pub proof fn lemma_first_supertype_stays(c: CtxModel, sub: TypeModel, ts: Seq<TypeModel>, k: nat, n: nat)
    requires
        k <= n <= ts.len(),
        first_supertype(c, sub, ts, k) is Some,
    ensures
        first_supertype(c, sub, ts, n) == first_supertype(c, sub, ts, k),
    decreases n - k,
{
    if k < n {
        lemma_first_supertype_stays(c, sub, ts, k, (n - 1) as nat);
    }
}

} // verus!
