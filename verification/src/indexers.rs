//! Pass 1: the project-wide symbol index.
//!
//! One traversal over every file's top-level statements collects a signature
//! for each class method declaration, abstract or concrete, keyed by the
//! flattened owner key (namespace with separators replaced, concatenated
//! with the class name) and the method name. Keys are not true qualified
//! names: two declarations whose keys flatten to the same text collide, and
//! the later insertion silently replaces the earlier one.
use vstd::prelude::*;

use crate::ast::ClassMember;
use crate::ast::File;
use crate::ast::MethodDeclaration;
use crate::ast::Parameter;
use crate::ast::Statement;
use crate::text::flat_chars;
use crate::text::replace_backslashes;
use crate::traverse::IdentifierModel;
use crate::ast::Identifier;

verus! {

/// The flattened owner key of a class: the namespace with each separator
/// replaced by an underscore, concatenated with the class name.
pub open spec fn spec_class_key(namespace: Seq<char>, class_name: Seq<char>) -> Seq<char> {
    flat_chars(namespace) + class_name
}

/// Computes the flattened owner key for a class.
pub fn class_key(namespace: &str, class_name: &str) -> (r: String)
    ensures
        r@ == spec_class_key(namespace@, class_name@),
{
    let flat = replace_backslashes(namespace);
    flat.concat(class_name)
}

/// The mathematical value of a [`MethodSignature`].
pub struct SignatureModel {
    pub class_name: Seq<char>,
    pub method_name: Seq<char>,
    pub required_params: int,
    pub all_params: int,
    pub return_type: Option<Seq<char>>,
}

/// One resolvable callable member: its owner's flattened key, its name, how
/// many arguments it requires and at most accepts, and its declared return
/// type (informational only).
#[derive(Debug)]
pub struct MethodSignature {
    pub class_name: String,
    pub method_name: String,
    pub required_params: usize,
    pub all_params: usize,
    pub return_type: Option<String>,
}

impl View for MethodSignature {
    type V = SignatureModel;

    open spec fn view(&self) -> SignatureModel {
        SignatureModel {
            class_name: self.class_name@,
            method_name: self.method_name@,
            required_params: self.required_params as int,
            all_params: self.all_params as int,
            return_type: self.return_type.deep_view(),
        }
    }
}

impl DeepView for MethodSignature {
    type V = SignatureModel;

    open spec fn deep_view(&self) -> SignatureModel {
        self.view()
    }
}

/// How many of the declared parameters lack a default value.
pub open spec fn required_of(ps: Seq<Parameter>) -> int {
    ps.filter(|p: Parameter| !p.has_default).len() as int
}

/// One step of counting required parameters.
proof fn lemma_required_step(ps: Seq<Parameter>, i: int)
    requires
        0 <= i < ps.len(),
    ensures
        required_of(ps.take(i + 1)) == required_of(ps.take(i)) + if !ps[i].has_default {
            1int
        } else {
            0int
        },
        required_of(ps.take(i)) <= i,
    decreases i,
{
    reveal(Seq::filter);
    assert(ps.take(i + 1).drop_last() =~= ps.take(i));
    assert(ps.take(i + 1).last() == ps[i]);
    if i > 0 {
        lemma_required_step(ps, i - 1);
    } else {
        assert(ps.take(0) =~= Seq::<Parameter>::empty());
    }
}

/// The signature a method declaration contributes under a given owner key.
pub open spec fn sig_of_method(owner: Seq<char>, m: MethodDeclaration) -> SignatureModel {
    SignatureModel {
        class_name: owner,
        method_name: m.name@,
        required_params: required_of(m.parameters@),
        all_params: m.parameters@.len() as int,
        return_type: m.return_type.deep_view(),
    }
}

/// The signatures one class member contributes: one for a method
/// declaration (abstract or concrete), none otherwise.
pub open spec fn member_sigs(owner: Seq<char>, member: ClassMember) -> Seq<SignatureModel> {
    match member {
        ClassMember::AbstractMethod(m) => seq![sig_of_method(owner, m)],
        ClassMember::ConcreteMethod(m) => seq![sig_of_method(owner, m)],
        ClassMember::Other => seq![],
    }
}

/// The signatures of a class body, in declaration order.
pub open spec fn members_sigs(owner: Seq<char>, members: Seq<ClassMember>) -> Seq<SignatureModel>
    decreases members.len(),
{
    if members.len() == 0 {
        seq![]
    } else {
        members_sigs(owner, members.drop_last()) + member_sigs(owner, members.last())
    }
}

/// The declarations one statement contributes to the index, given the
/// namespace the walk is inside.
pub open spec fn stmt_decls(namespace: Seq<char>, s: Statement) -> Seq<SignatureModel>
    decreases s,
{
    match s {
        Statement::Namespace(n) => match n.name {
            Some(nm) => stmts_decls(nm@, n.statements@),
            None => seq![],
        },
        Statement::Class(c) => members_sigs(spec_class_key(namespace, c.name@), c.members@),
        _ => seq![],
    }
}

/// The declarations of a statement sequence, in traversal order.
pub open spec fn stmts_decls(namespace: Seq<char>, ss: Seq<Statement>) -> Seq<SignatureModel>
    decreases ss,
{
    if ss.len() == 0 {
        seq![]
    } else {
        stmts_decls(namespace, ss.drop_last()) + stmt_decls(namespace, ss.last())
    }
}

/// Whether a signature sits under the given owner and member key.
pub open spec fn sig_key_is(sig: SignatureModel, class: Seq<char>, method: Seq<char>) -> bool {
    sig.class_name == class && sig.method_name == method
}

/// The first position holding the given key, or the length if the key is
/// absent.
pub open spec fn first_key_pos(s: Seq<SignatureModel>, class: Seq<char>, method: Seq<char>) -> int
    decreases s.len(),
{
    if s.len() == 0 {
        0
    } else if sig_key_is(s[0], class, method) {
        0
    } else {
        1 + first_key_pos(s.drop_first(), class, method)
    }
}

/// What the index holds after inserting one signature: the element at the
/// key's first position is replaced if the key is present (last write
/// wins), else the signature is appended.
pub open spec fn upsert(s: Seq<SignatureModel>, sig: SignatureModel) -> Seq<SignatureModel> {
    let p = first_key_pos(s, sig.class_name, sig.method_name);
    if p < s.len() {
        s.update(p, sig)
    } else {
        s.push(sig)
    }
}

/// What the index holds after inserting a sequence of declarations in
/// order.
pub open spec fn insert_all(s: Seq<SignatureModel>, decls: Seq<SignatureModel>) -> Seq<
    SignatureModel,
>
    decreases decls.len(),
{
    if decls.len() == 0 {
        s
    } else {
        upsert(insert_all(s, decls.drop_last()), decls.last())
    }
}

/// The first signature whose member name matches, if any: call resolution
/// has no type inference, so a bare method name resolves to the earliest
/// index entry carrying it.
pub open spec fn resolve(s: Seq<SignatureModel>, name: Seq<char>) -> Option<SignatureModel>
    decreases s.len(),
{
    if s.len() == 0 {
        None
    } else if s[0].method_name == name {
        Some(s[0])
    } else {
        resolve(s.drop_first(), name)
    }
}

/// `first_key_pos` points at the first occurrence of the key.
pub proof fn lemma_first_key_pos(s: Seq<SignatureModel>, class: Seq<char>, method: Seq<char>)
    ensures
        0 <= first_key_pos(s, class, method) <= s.len(),
        first_key_pos(s, class, method) < s.len() ==> sig_key_is(
            s[first_key_pos(s, class, method)],
            class,
            method,
        ),
        forall|j: int|
            0 <= j < first_key_pos(s, class, method) ==> !sig_key_is(#[trigger] s[j], class, method),
    decreases s.len(),
{
    if s.len() != 0 && !sig_key_is(s[0], class, method) {
        lemma_first_key_pos(s.drop_first(), class, method);
        let p = first_key_pos(s, class, method);
        assert forall|j: int| 0 <= j < p implies !sig_key_is(#[trigger] s[j], class, method) by {
            if j > 0 {
                assert(s.drop_first()[j - 1] == s[j]);
            }
        }
    }
}

/// `resolve` returns the entry at the first position whose member name
/// matches, and `None` exactly when no entry matches.
pub proof fn lemma_resolve(s: Seq<SignatureModel>, name: Seq<char>)
    ensures
        resolve(s, name) is None <==> forall|j: int|
            0 <= j < s.len() ==> (#[trigger] s[j]).method_name != name,
        resolve(s, name) is Some ==> exists|i: int|
            0 <= i < s.len() && (#[trigger] s[i]).method_name == name && resolve(s, name)
                == Some(s[i]) && forall|j: int| 0 <= j < i ==> s[j].method_name != name,
    decreases s.len(),
{
    if s.len() != 0 && s[0].method_name != name {
        lemma_resolve(s.drop_first(), name);
        if resolve(s, name) is Some {
            let i0 = choose|i: int|
                0 <= i < s.drop_first().len() && (#[trigger] s.drop_first()[i]).method_name == name
                    && resolve(s.drop_first(), name) == Some(s.drop_first()[i]) && forall|j: int|
                    0 <= j < i ==> s.drop_first()[j].method_name != name;
            assert(s[i0 + 1] == s.drop_first()[i0]);
            assert forall|j: int| 0 <= j < i0 + 1 implies (#[trigger] s[j]).method_name != name by {
                if j > 0 {
                    assert(s.drop_first()[j - 1] == s[j]);
                }
            }
        } else {
            assert forall|j: int| 0 <= j < s.len() implies (#[trigger] s[j]).method_name
                != name by {
                if j > 0 {
                    assert(s.drop_first()[j - 1] == s[j]);
                }
            }
        }
    }
}

/// The index, a build-once mapping from (owner key, member name) to the
/// latest signature declared under that key, in first-insertion order.
pub struct MethodIndex {
    pub methods: Vec<MethodSignature>,
}

impl View for MethodIndex {
    type V = Seq<SignatureModel>;

    open spec fn view(&self) -> Seq<SignatureModel> {
        self.methods.deep_view()
    }
}

impl MethodIndex {
    /// Inserts one signature: replaces the entry under the same key if one
    /// exists, else appends.
    #[verifier::loop_isolation(false)]
    fn insert(&mut self, sig: MethodSignature)
        ensures
            final(self)@ == upsert(old(self)@, sig@),
    {
        let ghost pre = self@;
        let ghost target = sig@;
        proof {
            lemma_first_key_pos(pre, target.class_name, target.method_name);
        }
        let mut i: usize = 0;
        while i < self.methods.len()
            invariant
                self@ == pre,
                self.methods.len() == pre.len(),
                0 <= i <= pre.len(),
                forall|j: int| 0 <= j < i ==> !sig_key_is(#[trigger] pre[j], target.class_name, target.method_name),
            decreases self.methods.len() - i,
        {
            proof {
                assert(pre[i as int] == self.methods@[i as int]@);
            }
            let entry = &self.methods[i];
            let hit = entry.class_name == sig.class_name && entry.method_name == sig.method_name;
            if hit {
                proof {
                    assert(sig_key_is(pre[i as int], target.class_name, target.method_name));
                    assert(first_key_pos(pre, target.class_name, target.method_name) == i as int);
                }
                self.methods.set(i, sig);
                proof {
                    assert(self@ =~= upsert(pre, target));
                }
                return ;
            }
            i += 1;
        }
        proof {
            assert(first_key_pos(pre, target.class_name, target.method_name) == pre.len() as int);
        }
        self.methods.push(sig);
        proof {
            assert(self@ =~= upsert(pre, target));
        }
    }

    /// Resolves a callee identifier against the index: the first entry
    /// whose member name matches a written-out identifier, and never an
    /// entry for a name computed at run time.
    #[verifier::loop_isolation(false)]
    pub fn find_method(&self, identifier: &Identifier) -> (r: Option<&MethodSignature>)
        ensures
            match identifier@ {
                IdentifierModel::Simple { name, span } => match r {
                    Some(sig) => resolve(self@, name) == Some(sig@),
                    None => resolve(self@, name) is None,
                },
                IdentifierModel::Dynamic { span } => r is None,
            },
    {
        match identifier {
            Identifier::Simple { name, span } => {
                let ghost target = name@;
                proof {
                    lemma_resolve(self@, target);
                }
                let mut i: usize = 0;
                while i < self.methods.len()
                    invariant
                        0 <= i <= self.methods.len(),
                        forall|j: int|
                            0 <= j < i ==> (#[trigger] self@[j]).method_name != target,
                    decreases self.methods.len() - i,
                {
                    proof {
                        assert(self@[i as int] == self.methods@[i as int]@);
                    }
                    if self.methods[i].method_name.eq(name) {
                        proof {
                            lemma_resolve_at(self@, target, i as int);
                        }
                        return Some(&self.methods[i]);
                    }
                    i += 1;
                }
                None
            },
            Identifier::Dynamic { span } => None,
        }
    }
}

/// `resolve` returns the entry at a matching position before which nothing
/// matches.
proof fn lemma_resolve_at(s: Seq<SignatureModel>, name: Seq<char>, i: int)
    requires
        0 <= i < s.len(),
        s[i].method_name == name,
        forall|j: int| 0 <= j < i ==> (#[trigger] s[j]).method_name != name,
    ensures
        resolve(s, name) == Some(s[i]),
    decreases i,
{
    if i > 0 {
        assert forall|j: int| 0 <= j < i - 1 implies (#[trigger] s.drop_first()[j]).method_name
            != name by {
            assert(s.drop_first()[j] == s[j + 1]);
        }
        assert(s.drop_first()[i - 1] == s[i]);
        lemma_resolve_at(s.drop_first(), name, i - 1);
    }
}

/// An indexer: one pass over statements that accumulates signatures. The
/// abstraction point for further indexers sharing the driver's pass 1.
pub trait Indexer: Sized {
    /// The signatures accumulated so far.
    spec fn model(&self) -> Seq<SignatureModel>;

    /// What one pass over a statement sequence leaves in the indexer.
    spec fn statements_effect(pre: Seq<SignatureModel>, statements: Seq<Statement>) -> Seq<
        SignatureModel,
    >;

    /// Initialize the indexer.
    fn new() -> (r: Self)
        ensures
            r.model() == Seq::<SignatureModel>::empty(),
    ;

    /// Process a file's statements to extract information.
    fn process_statements(&mut self, statements: &Vec<Statement>)
        ensures
            final(self).model() == Self::statements_effect(old(self).model(), statements@),
    ;

    /// Index one file's declarations.
    fn index_file(&mut self, file: &File)
        ensures
            final(self).model() == Self::statements_effect(old(self).model(), file.ast@),
    ;
}

impl Indexer for MethodIndex {
    open spec fn model(&self) -> Seq<SignatureModel> {
        self@
    }

    open spec fn statements_effect(pre: Seq<SignatureModel>, statements: Seq<Statement>) -> Seq<
        SignatureModel,
    > {
        insert_all(pre, stmts_decls(Seq::<char>::empty(), statements))
    }

    fn new() -> (r: Self) {
        MethodIndex { methods: Vec::new() }
    }

    fn process_statements(&mut self, statements: &Vec<Statement>) {
        let empty_ns = String::new();
        index_stmts(self, empty_ns.as_str(), statements);
    }

    fn index_file(&mut self, file: &File) {
        self.process_statements(&file.ast);
    }
}

fn index_members(idx: &mut MethodIndex, owner: &String, members: &Vec<ClassMember>)
    ensures
        final(idx)@ == insert_all(old(idx)@, members_sigs(owner@, members@)),
{
    let ghost pre = idx@;
    let mut i: usize = 0;
    while i < members.len()
        invariant
            0 <= i <= members.len(),
            idx@ == insert_all(pre, members_sigs(owner@, members@.take(i as int))),
        decreases members.len() - i,
    {
        match &members[i] {
            ClassMember::AbstractMethod(m) => {
                let sig = signature_of(owner, m);
                idx.insert(sig);
            },
            ClassMember::ConcreteMethod(m) => {
                let sig = signature_of(owner, m);
                idx.insert(sig);
            },
            ClassMember::Other => {},
        }
        proof {
            assert(members@.take(i + 1).drop_last() =~= members@.take(i as int));
            assert(members@.take(i + 1).last() == members@[i as int]);
            lemma_insert_all_append_one(
                pre,
                members_sigs(owner@, members@.take(i as int)),
                member_sigs(owner@, members@[i as int]),
            );
        }
        i += 1;
    }
    proof {
        assert(members@.take(members@.len() as int) =~= members@);
    }
}

/// Inserting a declaration list extended by at most one signature.
proof fn lemma_insert_all_append_one(
    s: Seq<SignatureModel>,
    decls: Seq<SignatureModel>,
    one: Seq<SignatureModel>,
)
    requires
        one.len() <= 1,
    ensures
        one.len() == 0 ==> insert_all(s, decls + one) == insert_all(s, decls),
        one.len() == 1 ==> insert_all(s, decls + one) == upsert(insert_all(s, decls), one[0]),
{
    if one.len() == 0 {
        assert(decls + one =~= decls);
    } else {
        assert((decls + one).drop_last() =~= decls);
        assert((decls + one).last() == one[0]);
    }
}

fn signature_of(owner: &String, m: &MethodDeclaration) -> (r: MethodSignature)
    ensures
        r@ == sig_of_method(owner@, *m),
{
    let required = count_required(&m.parameters);
    let all = m.parameters.len();
    let rt = match &m.return_type {
        Some(t) => Some(t.clone()),
        None => None,
    };
    let r = MethodSignature {
        class_name: owner.clone(),
        method_name: m.name.clone(),
        required_params: required,
        all_params: all,
        return_type: rt,
    };
    proof {
        assert(r@.return_type == m.return_type.deep_view());
    }
    r
}

fn count_required(parameters: &Vec<Parameter>) -> (r: usize)
    ensures
        r as int == required_of(parameters@),
{
    let mut count: usize = 0;
    proof {
        reveal(Seq::filter);
        assert(parameters@.take(0) =~= Seq::<Parameter>::empty());
        assert(required_of(parameters@.take(0)) == 0);
    }
    let mut i: usize = 0;
    while i < parameters.len()
        invariant
            0 <= i <= parameters.len(),
            count <= i,
            count as int == required_of(parameters@.take(i as int)),
        decreases parameters.len() - i,
    {
        proof {
            lemma_required_step(parameters@, i as int);
        }
        if !parameters[i].has_default {
            count += 1;
        }
        i += 1;
    }
    proof {
        assert(parameters@.take(parameters@.len() as int) =~= parameters@);
    }
    count
}

fn index_stmt(idx: &mut MethodIndex, namespace: &str, s: &Statement)
    ensures
        final(idx)@ == insert_all(old(idx)@, stmt_decls(namespace@, *s)),
    decreases *s,
{
    match s {
        Statement::Namespace(n) => {
            match &n.name {
                Some(nm) => index_stmts(idx, nm.as_str(), &n.statements),
                None => {},
            }
        },
        Statement::Class(c) => {
            let owner = class_key(namespace, c.name.as_str());
            index_members(idx, &owner, &c.members);
        },
        _ => {},
    }
}

fn index_stmts(idx: &mut MethodIndex, namespace: &str, ss: &Vec<Statement>)
    ensures
        final(idx)@ == insert_all(old(idx)@, stmts_decls(namespace@, ss@)),
    decreases ss@,
{
    let ghost pre = idx@;
    let mut i: usize = 0;
    while i < ss.len()
        invariant
            0 <= i <= ss.len(),
            idx@ == insert_all(pre, stmts_decls(namespace@, ss@.take(i as int))),
        decreases ss.len() - i,
    {
        index_stmt(idx, namespace, &ss[i]);
        proof {
            assert(ss@.take(i + 1).drop_last() =~= ss@.take(i as int));
            assert(ss@.take(i + 1).last() == ss@[i as int]);
            lemma_insert_all_concat(
                pre,
                stmts_decls(namespace@, ss@.take(i as int)),
                stmt_decls(namespace@, ss@[i as int]),
            );
        }
        i += 1;
    }
    proof {
        assert(ss@.take(ss@.len() as int) =~= ss@);
    }
}

/// Every indexer the driver runs during pass 1; the method index is the
/// one this analysis needs.
pub struct Indexers {
    pub method_index: MethodIndex,
}

impl Indexers {
    /// Fresh indexers with nothing accumulated.
    pub fn new() -> (r: Self)
        ensures
            r.method_index@ == Seq::<SignatureModel>::empty(),
    {
        Indexers { method_index: MethodIndex::new() }
    }

    /// Runs every indexer over one file's statements.
    pub fn index_file(&mut self, file: &File)
        ensures
            final(self).method_index@ == insert_all(
                old(self).method_index@,
                stmts_decls(Seq::<char>::empty(), file.ast@),
            ),
    {
        self.method_index.index_file(file);
    }
}

/// Inserting a concatenation inserts the two parts in order.
pub proof fn lemma_insert_all_concat(
    s: Seq<SignatureModel>,
    a: Seq<SignatureModel>,
    b: Seq<SignatureModel>,
)
    ensures
        insert_all(s, a + b) == insert_all(insert_all(s, a), b),
    decreases b.len(),
{
    if b.len() == 0 {
        assert(a + b =~= a);
    } else {
        assert((a + b).drop_last() =~= a + b.drop_last());
        assert((a + b).last() == b.last());
        lemma_insert_all_concat(s, a, b.drop_last());
    }
}

/// The index pass 1 builds over a whole file set, in input order, starting
/// empty.
pub open spec fn index_of_files(files: Seq<File>) -> Seq<SignatureModel>
    decreases files.len(),
{
    if files.len() == 0 {
        Seq::<SignatureModel>::empty()
    } else {
        insert_all(
            index_of_files(files.drop_last()),
            stmts_decls(Seq::<char>::empty(), files.last().ast@),
        )
    }
}

/// Whether the index holds an entry under the given owner and member key.
pub open spec fn has_key(s: Seq<SignatureModel>, class: Seq<char>, method: Seq<char>) -> bool {
    exists|i: int| 0 <= i < s.len() && sig_key_is(#[trigger] s[i], class, method)
}

/// An insertion keeps every existing key and adds the inserted one.
pub proof fn lemma_upsert_has_key(
    s: Seq<SignatureModel>,
    sig: SignatureModel,
    class: Seq<char>,
    method: Seq<char>,
)
    ensures
        has_key(upsert(s, sig), class, method) <==> (has_key(s, class, method) || sig_key_is(
            sig,
            class,
            method,
        )),
{
    lemma_first_key_pos(s, sig.class_name, sig.method_name);
    let p = first_key_pos(s, sig.class_name, sig.method_name);
    let u = upsert(s, sig);
    if p < s.len() {
        if sig_key_is(sig, class, method) {
            assert(sig_key_is(u[p], class, method));
        }
        if has_key(s, class, method) {
            let i = choose|i: int| 0 <= i < s.len() && sig_key_is(#[trigger] s[i], class, method);
            if i == p {
                assert(sig_key_is(u[p], class, method));
            } else {
                assert(sig_key_is(u[i], class, method));
            }
        }
        if has_key(u, class, method) {
            let i = choose|i: int| 0 <= i < u.len() && sig_key_is(#[trigger] u[i], class, method);
            if i != p {
                assert(sig_key_is(s[i], class, method));
            }
        }
    } else {
        if sig_key_is(sig, class, method) {
            assert(sig_key_is(u[s.len() as int], class, method));
        }
        if has_key(s, class, method) {
            let i = choose|i: int| 0 <= i < s.len() && sig_key_is(#[trigger] s[i], class, method);
            assert(sig_key_is(u[i], class, method));
        }
        if has_key(u, class, method) {
            let i = choose|i: int| 0 <= i < u.len() && sig_key_is(#[trigger] u[i], class, method);
            if i < s.len() {
                assert(sig_key_is(s[i], class, method));
            }
        }
    }
}

/// Inserting a declaration list leaves exactly the old keys and the
/// declared ones.
pub proof fn lemma_insert_all_has_key(
    s: Seq<SignatureModel>,
    decls: Seq<SignatureModel>,
    class: Seq<char>,
    method: Seq<char>,
)
    ensures
        has_key(insert_all(s, decls), class, method) <==> (has_key(s, class, method) || has_key(
            decls,
            class,
            method,
        )),
    decreases decls.len(),
{
    if decls.len() == 0 {
        assert(!has_key(decls, class, method));
    } else {
        lemma_insert_all_has_key(s, decls.drop_last(), class, method);
        lemma_upsert_has_key(insert_all(s, decls.drop_last()), decls.last(), class, method);
        assert(has_key(decls, class, method) <==> (has_key(decls.drop_last(), class, method)
            || sig_key_is(decls.last(), class, method))) by {
            if has_key(decls.drop_last(), class, method) {
                let i = choose|i: int|
                    0 <= i < decls.drop_last().len() && sig_key_is(
                        #[trigger] decls.drop_last()[i],
                        class,
                        method,
                    );
                assert(sig_key_is(decls[i], class, method));
            }
            if sig_key_is(decls.last(), class, method) {
                assert(sig_key_is(decls[decls.len() - 1], class, method));
            }
            if has_key(decls, class, method) {
                let i = choose|i: int|
                    0 <= i < decls.len() && sig_key_is(#[trigger] decls[i], class, method);
                if i < decls.len() - 1 {
                    assert(sig_key_is(decls.drop_last()[i], class, method));
                }
            }
        }
    }
}

/// Index completeness: for every method declared by a class in any file of
/// the project, the index pass 1 builds holds an entry under that owner
/// and member key, before any rule runs.
pub proof fn lemma_index_completeness(files: Seq<File>, k: int, d: SignatureModel)
    requires
        0 <= k < files.len(),
        stmts_decls(Seq::<char>::empty(), files[k].ast@).contains(d),
    ensures
        has_key(index_of_files(files), d.class_name, d.method_name),
    decreases files.len(),
{
    let decls_last = stmts_decls(Seq::<char>::empty(), files.last().ast@);
    lemma_insert_all_has_key(
        index_of_files(files.drop_last()),
        decls_last,
        d.class_name,
        d.method_name,
    );
    if k == files.len() - 1 {
        let i = choose|i: int| 0 <= i < decls_last.len() && decls_last[i] == d;
        assert(sig_key_is(decls_last[i], d.class_name, d.method_name));
    } else {
        assert(files.drop_last()[k] == files[k]);
        lemma_index_completeness(files.drop_last(), k, d);
    }
}

/// The index invariant: at most one signature per (owner key, member
/// name) pair.
pub open spec fn unique_keys(s: Seq<SignatureModel>) -> bool {
    forall|i: int, j: int|
        0 <= i < j < s.len() ==> !sig_key_is(
            #[trigger] s[i],
            (#[trigger] s[j]).class_name,
            s[j].method_name,
        )
}

/// Inserting one signature preserves key uniqueness: a present key is
/// overwritten in place, an absent one appended.
pub proof fn lemma_upsert_unique(s: Seq<SignatureModel>, sig: SignatureModel)
    requires
        unique_keys(s),
    ensures
        unique_keys(upsert(s, sig)),
{
    lemma_first_key_pos(s, sig.class_name, sig.method_name);
    let p = first_key_pos(s, sig.class_name, sig.method_name);
    let u = upsert(s, sig);
    assert forall|i: int, j: int| 0 <= i < j < u.len() implies !sig_key_is(
        #[trigger] u[i],
        (#[trigger] u[j]).class_name,
        u[j].method_name,
    ) by {
        if p < s.len() {
            if i == p {
                assert(u[i] == sig);
                assert(u[j] == s[j]);
                if sig_key_is(u[i], u[j].class_name, u[j].method_name) {
                    assert(sig_key_is(s[p], sig.class_name, sig.method_name));
                    assert(sig_key_is(s[j], s[p].class_name, s[p].method_name));
                }
            } else if j == p {
                assert(u[j] == sig);
                assert(u[i] == s[i]);
                if sig_key_is(u[i], u[j].class_name, u[j].method_name) {
                    assert(sig_key_is(s[i], sig.class_name, sig.method_name));
                }
            } else {
                assert(u[i] == s[i]);
                assert(u[j] == s[j]);
            }
        } else {
            if j == s.len() {
                assert(u[j] == sig);
                assert(u[i] == s[i]);
                if sig_key_is(u[i], u[j].class_name, u[j].method_name) {
                    assert(sig_key_is(s[i], sig.class_name, sig.method_name));
                }
            } else {
                assert(u[i] == s[i]);
                assert(u[j] == s[j]);
            }
        }
    }
}

/// Inserting any declaration list preserves key uniqueness.
pub proof fn lemma_insert_all_unique(s: Seq<SignatureModel>, decls: Seq<SignatureModel>)
    requires
        unique_keys(s),
    ensures
        unique_keys(insert_all(s, decls)),
    decreases decls.len(),
{
    if decls.len() != 0 {
        lemma_insert_all_unique(s, decls.drop_last());
        lemma_upsert_unique(insert_all(s, decls.drop_last()), decls.last());
    }
}

/// The index pass 1 builds retains at most one signature per (owner key,
/// member name) pair, whatever the project declares.
pub proof fn lemma_index_unique(files: Seq<File>)
    ensures
        unique_keys(index_of_files(files)),
    decreases files.len(),
{
    if files.len() == 0 {
    } else {
        lemma_index_unique(files.drop_last());
        lemma_insert_all_unique(
            index_of_files(files.drop_last()),
            stmts_decls(Seq::<char>::empty(), files.last().ast@),
        );
    }
}

} // verus!
