//! Function signatures and the per-compilation-unit signature index.
//!
//! A signature records a function's identity, its ordered argument
//! categories, its ordered return slots and whether it returns a stream. The
//! index maps each function name to one signature; it is built once, from
//! schema functions and query-local preamble functions, and is read-only
//! afterwards. When several entries carry the same name, the last one wins.

use vstd::prelude::*;
use vstd::string::StringExecFns;

verus! {

/// The category of values a function argument or return slot may hold.
#[derive(Clone, Copy, PartialEq, Eq, Structural, Hash, Debug)]
pub enum VariableCategory {
    Type,
    Thing,
    ThingList,
    Attribute,
    AttributeList,
    Value,
    ValueList,
    Object,
    ObjectList,
}

/// Whether a return slot may be absent in a row.
#[derive(Clone, Copy, PartialEq, Eq, Structural, Hash, Debug)]
pub enum VariableOptionality {
    Required,
    Optional,
}

/// The persistent identifier of a definition stored in the schema.
#[derive(Clone, Copy, PartialEq, Eq, Structural, Hash, Debug)]
pub struct DefinitionID {
    pub id: u64,
}

impl DefinitionID {
    pub fn as_uint(&self) -> (r: u64)
        ensures
            r == self.id,
    {
        self.id
    }
}

/// The key under which a schema function is persisted.
#[derive(Clone, Copy, PartialEq, Eq, Structural, Hash, Debug)]
pub struct DefinitionKey {
    pub definition_id: DefinitionID,
}

impl DefinitionKey {
    pub fn definition_id(&self) -> (r: DefinitionID)
        ensures
            r == self.definition_id,
    {
        self.definition_id
    }
}

/// Identifies a function: either persisted in the schema under a definition
/// key, or local to the query's preamble under its index. The two tags are
/// mutually exclusive.
#[derive(Clone, Copy, PartialEq, Eq, Structural, Hash, Debug)]
pub enum FunctionID {
    Schema(DefinitionKey),
    Preamble(usize),
}

impl FunctionID {
    /// The definition key, when this identifies a schema function.
    pub fn as_definition_key(&self) -> (r: Option<DefinitionKey>)
        ensures
            r is Some <==> self is Schema,
            r matches Some(k) ==> *self == FunctionID::Schema(k),
    {
        if let FunctionID::Schema(definition_key) = self {
            Some(*definition_key)
        } else {
            None
        }
    }

    /// The preamble index, when this identifies a query-local function.
    pub fn as_preamble(&self) -> (r: Option<usize>)
        ensures
            r is Some <==> self is Preamble,
            r matches Some(i) ==> *self == FunctionID::Preamble(i),
    {
        if let FunctionID::Preamble(index) = self {
            Some(*index)
        } else {
            None
        }
    }

    /// A numeric form of the identifier: the definition id of a schema
    /// function, or the preamble index itself.
    pub fn as_usize(&self) -> (r: usize)
        ensures
            self matches FunctionID::Schema(k) ==> r == k.definition_id.id as usize,
            self matches FunctionID::Preamble(i) ==> r == i,
    {
        match self {
            FunctionID::Schema(id) => id.definition_id().as_uint() as usize,
            FunctionID::Preamble(id) => *id,
        }
    }
}

/// Types that can serve as a function identifier and embed into `FunctionID`.
pub trait FunctionIDAPI: Sized + Copy {
    /// The `FunctionID` this identifier stands for.
    spec fn function_id_spec(&self) -> FunctionID;

    fn into_function_id(self) -> (r: FunctionID)
        ensures
            r == self.function_id_spec(),
    ;
}

impl FunctionIDAPI for DefinitionKey {
    open spec fn function_id_spec(&self) -> FunctionID {
        FunctionID::Schema(*self)
    }

    fn into_function_id(self) -> (r: FunctionID) {
        FunctionID::Schema(self)
    }
}

impl FunctionIDAPI for usize {
    open spec fn function_id_spec(&self) -> FunctionID {
        FunctionID::Preamble(*self)
    }

    fn into_function_id(self) -> (r: FunctionID) {
        FunctionID::Preamble(self)
    }
}

impl From<usize> for FunctionID {
    fn from(val: usize) -> (r: FunctionID) {
        FunctionID::Preamble(val)
    }
}

impl vstd::std_specs::convert::FromSpecImpl<usize> for FunctionID {
    open spec fn obeys_from_spec() -> bool {
        true
    }

    open spec fn from_spec(val: usize) -> FunctionID {
        FunctionID::Preamble(val)
    }
}

impl From<DefinitionKey> for FunctionID {
    fn from(val: DefinitionKey) -> (r: FunctionID) {
        FunctionID::Schema(val)
    }
}

impl vstd::std_specs::convert::FromSpecImpl<DefinitionKey> for FunctionID {
    open spec fn obeys_from_spec() -> bool {
        true
    }

    open spec fn from_spec(val: DefinitionKey) -> FunctionID {
        FunctionID::Schema(val)
    }
}

/// The mathematical content of a `FunctionSignature`.
pub ghost struct FunctionSignatureView {
    pub function_id: FunctionID,
    pub arguments: Seq<VariableCategory>,
    pub return_slots: Seq<(VariableCategory, VariableOptionality)>,
    pub return_is_stream: bool,
}

/// A function's callable shape: identity, argument categories, return slots
/// and stream flag. Immutable once built.
#[derive(Debug)]
pub struct FunctionSignature {
    pub function_id: FunctionID,
    pub arguments: Vec<VariableCategory>,
    pub return_slots: Vec<(VariableCategory, VariableOptionality)>,
    pub return_is_stream: bool,
}

impl View for FunctionSignature {
    type V = FunctionSignatureView;

    open spec fn view(&self) -> FunctionSignatureView {
        FunctionSignatureView {
            function_id: self.function_id,
            arguments: self.arguments@,
            return_slots: self.return_slots@,
            return_is_stream: self.return_is_stream,
        }
    }
}

impl FunctionSignature {
    pub fn new(
        function_id: FunctionID,
        arguments: Vec<VariableCategory>,
        return_slots: Vec<(VariableCategory, VariableOptionality)>,
        return_is_stream: bool,
    ) -> (r: FunctionSignature)
        ensures
            r.function_id == function_id,
            r.arguments@ == arguments@,
            r.return_slots@ == return_slots@,
            r.return_is_stream == return_is_stream,
    {
        FunctionSignature { function_id, arguments, return_slots, return_is_stream }
    }

    pub fn function_id(&self) -> (r: FunctionID)
        ensures
            r == self.function_id,
    {
        self.function_id
    }
}

/// A parsed function's declared signature, as the surface parser delivers
/// it: the function's name and the already-categorised argument and return
/// slots.
pub struct ParsedSignature {
    pub ident: String,
    pub arguments: Vec<VariableCategory>,
    pub return_slots: Vec<(VariableCategory, VariableOptionality)>,
    pub return_is_stream: bool,
}

/// A function definition as delivered by the surface parser.
pub struct ParsedFunction {
    pub signature: ParsedSignature,
}

/// The signature that `build_signature` derives from a parsed function.
pub open spec fn signature_of_parsed(function_id: FunctionID, function: ParsedFunction)
    -> FunctionSignatureView {
    FunctionSignatureView {
        function_id,
        arguments: function.signature.arguments@,
        return_slots: function.signature.return_slots@,
        return_is_stream: function.signature.return_is_stream,
    }
}

fn copy_categories(source: &Vec<VariableCategory>) -> (r: Vec<VariableCategory>)
    ensures
        r@ == source@,
{
    let mut out: Vec<VariableCategory> = Vec::new();
    let mut i: usize = 0;
    while i < source.len()
        invariant
            i <= source.len(),
            out@ == source@.take(i as int),
        decreases source.len() - i,
    {
        out.push(source[i]);
        proof {
            assert(source@.take(i + 1) =~= source@.take(i as int).push(source@[i as int]));
        }
        i = i + 1;
    }
    proof {
        assert(source@.take(source@.len() as int) =~= source@);
    }
    out
}

fn copy_returns(source: &Vec<(VariableCategory, VariableOptionality)>) -> (r: Vec<
    (VariableCategory, VariableOptionality),
>)
    ensures
        r@ == source@,
{
    let mut out: Vec<(VariableCategory, VariableOptionality)> = Vec::new();
    let mut i: usize = 0;
    while i < source.len()
        invariant
            i <= source.len(),
            out@ == source@.take(i as int),
        decreases source.len() - i,
    {
        out.push(source[i]);
        proof {
            assert(source@.take(i + 1) =~= source@.take(i as int).push(source@[i as int]));
        }
        i = i + 1;
    }
    proof {
        assert(source@.take(source@.len() as int) =~= source@);
    }
    out
}

/// Derives the callable signature of a parsed function under the given
/// identity.
pub fn build_signature(function_id: FunctionID, function: &ParsedFunction) -> (r: FunctionSignature)
    ensures
        r@ == signature_of_parsed(function_id, *function),
{
    FunctionSignature {
        function_id,
        arguments: copy_categories(&function.signature.arguments),
        return_slots: copy_returns(&function.signature.return_slots),
        return_is_stream: function.signature.return_is_stream,
    }
}

/// A signature handed out by an index: borrowed from the index, or owned.
pub enum MaybeOwns<'a, T> {
    Owned(T),
    Borrowed(&'a T),
}

impl<'a, T> MaybeOwns<'a, T> {
    /// The value held, whichever way it is held.
    pub open spec fn resolved(self) -> T {
        match self {
            MaybeOwns::Owned(t) => t,
            MaybeOwns::Borrowed(t) => *t,
        }
    }
}

/// A transient failure while reading function metadata. Lookup in the
/// in-memory index never raises one; absence of a name is `None`, not an
/// error.
#[derive(Clone, Copy, Debug)]
pub enum FunctionReadError {
    FunctionRetrieval,
}

/// Read access to function signatures by name.
pub trait FunctionSignatureIndex {
    /// The signature the index holds under `name`, if any.
    spec fn signature_named(&self, name: Seq<char>) -> Option<FunctionSignatureView>;

    fn get_function_signature<'a>(&'a self, name: &str) -> (r: Result<
        Option<MaybeOwns<'a, FunctionSignature>>,
        FunctionReadError,
    >)
        ensures
            r matches Ok(o) && (o is Some <==> self.signature_named(name@) is Some) && (o
                matches Some(m) ==> self.signature_named(name@) == Some(m.resolved()@)),
    ;
}

/// The signature under `name` in an association list, reading front to back.
pub open spec fn indexed_signature(
    entries: Seq<(String, FunctionSignature)>,
    name: Seq<char>,
) -> Option<FunctionSignatureView>
    decreases entries.len(),
{
    if entries.len() == 0 {
        None
    } else if entries.first().0@ == name {
        Some(entries.first().1@)
    } else {
        indexed_signature(entries.drop_first(), name)
    }
}

/// The signature `name` receives from a build input, later entries winning
/// over earlier ones.
pub open spec fn built_signature(
    functions: Seq<(FunctionID, ParsedFunction)>,
    name: Seq<char>,
) -> Option<FunctionSignatureView>
    decreases functions.len(),
{
    if functions.len() == 0 {
        None
    } else {
        let rest = built_signature(functions.drop_first(), name);
        if rest is Some {
            rest
        } else if functions.first().1.signature.ident@ == name {
            Some(signature_of_parsed(functions.first().0, functions.first().1))
        } else {
            None
        }
    }
}

/// Appending an entry to an association list only affects its own name, and
/// only when the name was absent.
proof fn lemma_indexed_signature_push(
    entries: Seq<(String, FunctionSignature)>,
    entry: (String, FunctionSignature),
    name: Seq<char>,
)
    ensures
        indexed_signature(entries.push(entry), name) == if indexed_signature(entries, name)
            is Some {
            indexed_signature(entries, name)
        } else if entry.0@ == name {
            Some(entry.1@)
        } else {
            None::<FunctionSignatureView>
        },
    decreases entries.len(),
{
    if entries.len() == 0 {
        assert(entries =~= Seq::<(String, FunctionSignature)>::empty());
        assert(indexed_signature(Seq::<(String, FunctionSignature)>::empty(), name) is None);
        assert(entries.push(entry).first() == entry);
        assert(entries.push(entry).drop_first() =~= Seq::<(String, FunctionSignature)>::empty());
    } else {
        assert(entries.push(entry).first() == entries.first());
        assert(entries.push(entry).drop_first() =~= entries.drop_first().push(entry));
        lemma_indexed_signature_push(entries.drop_first(), entry, name);
    }
}

/// An immutable name-to-signature mapping, held as an association list whose
/// names are unique.
#[derive(Debug)]
pub struct HashMapFunctionSignatureIndex {
    index: Vec<(String, FunctionSignature)>,
}

impl HashMapFunctionSignatureIndex {
    /// The entries, whose names are pairwise distinct.
    pub closed spec fn entries(&self) -> Seq<(String, FunctionSignature)> {
        self.index@
    }

    pub open spec fn wf(&self) -> bool {
        forall|i: int, j: int|
            0 <= i < j < self.entries().len() ==> (#[trigger] self.entries()[i]).0@ != (
            #[trigger] self.entries()[j]).0@
    }

    /// Builds the index from identified parsed functions. Each name maps to
    /// exactly one signature; of several entries with one name, the last
    /// wins.
    pub fn build(functions: Vec<(FunctionID, ParsedFunction)>) -> (r: HashMapFunctionSignatureIndex)
        ensures
            r.wf(),
            forall|name: Seq<char>| #![all_triggers]
                indexed_signature(r.entries(), name) == built_signature(functions@, name),
    {
        let ghost all = functions@;
        let mut index: Vec<(String, FunctionSignature)> = Vec::new();
        let mut remaining = functions;
        let total = remaining.len();
        proof {
            assert(remaining@.skip(0) =~= all);
        }
        let mut taken: usize = 0;
        while remaining.len() > 0
            invariant
                taken + remaining@.len() == total,
                total == all.len(),
                remaining@ == all.skip(taken as int),
                forall|i: int, j: int|
                    0 <= i < j < index@.len() ==> (#[trigger] index@[i]).0@ != (
                    #[trigger] index@[j]).0@,
                forall|name: Seq<char>| #![all_triggers]
                    indexed_signature(index@, name) == built_signature(
                        all.take(taken as int),
                        name,
                    ),
            decreases remaining@.len(),
        {
            let ghost remaining_before = remaining@;
            let pair = remaining.remove(0);
            proof {
                assert(remaining_before[0] == all.skip(taken as int).first());
                assert(all.skip(taken as int).first() == all[taken as int]);
                assert(remaining@ =~= remaining_before.drop_first());
                assert(all.skip(taken as int).drop_first() =~= all.skip(taken + 1));
                assert(pair == all[taken as int]);
            }
            let (function_id, function) = pair;
            let name_string = function.signature.ident.clone();
            let signature = build_signature(function_id, &function);
            // last-wins: drop any earlier entry under the same name
            let mut existing: Option<usize> = None;
            let mut i: usize = 0;
            while i < index.len()
                invariant
                    i <= index@.len(),
                    name_string@ == function.signature.ident@,
                    existing matches Some(k) ==> k < i && index@[k as int].0@ == name_string@,
                    existing is None ==> forall|j: int|
                        0 <= j < i ==> (#[trigger] index@[j]).0@ != name_string@,
                decreases index@.len() - i,
            {
                if index[i].0 == name_string {
                    existing = Some(i);
                }
                i = i + 1;
            }
            let ghost index_before = index@;
            if let Some(k) = existing {
                index.remove(k);
                proof {
                    assert(index@ =~= index_before.subrange(0, k as int) + index_before.subrange(
                        k + 1,
                        index_before.len() as int,
                    ));
                }
            }
            let ghost index_mid = index@;
            let ghost pushed = (name_string, signature);
            index.push((name_string, signature));
            proof {
                assert(index@ =~= index_mid.push(pushed));
                match existing {
                    Some(k) => {
                        lemma_indexed_signature_remove(
                            index_before,
                            k as int,
                            pushed.0@,
                            pushed.0@,
                        );
                    },
                    None => {
                        lemma_indexed_signature_absent(index_mid, pushed.0@);
                    },
                }
                assert(indexed_signature(index_mid, pushed.0@) is None);
                assert forall|name: Seq<char>|
                    indexed_signature(index@, name) == built_signature(
                        all.take(taken + 1),
                        name,
                    ) by {
                    lemma_built_signature_take_step(all, taken as int, name);
                    lemma_indexed_signature_push(index_mid, pushed, name);
                    match existing {
                        Some(k) => {
                            lemma_indexed_signature_remove(
                                index_before,
                                k as int,
                                pushed.0@,
                                name,
                            );
                        },
                        None => {
                        },
                    }
                }
            }
            taken = taken + 1;
        }
        proof {
            assert(all.take(all.len() as int) =~= all);
        }
        HashMapFunctionSignatureIndex { index }
    }

    /// An index holding no functions.
    pub fn empty() -> (r: HashMapFunctionSignatureIndex)
        ensures
            r.wf(),
            r.entries().len() == 0,
    {
        let r = Self::build(Vec::new());
        proof {
            if r.entries().len() > 0 {
                let nm = r.entries()[0].0@;
                assert(r.entries().first() == r.entries()[0]);
                assert(indexed_signature(r.entries(), nm) is Some);
                assert(built_signature(Seq::<(FunctionID, ParsedFunction)>::empty(), nm) is None);
            }
        }
        r
    }

    /// Surrenders the underlying name-to-signature entries.
    pub fn into_map(self) -> (r: Vec<(String, FunctionSignature)>)
        ensures
            r@ == self.entries(),
    {
        self.index
    }
}

/// Removing the one entry under `removed_name` leaves every other name's
/// lookup unchanged and makes `removed_name` absent.
proof fn lemma_indexed_signature_remove(
    entries: Seq<(String, FunctionSignature)>,
    k: int,
    removed_name: Seq<char>,
    name: Seq<char>,
)
    requires
        0 <= k < entries.len(),
        entries[k].0@ == removed_name,
        forall|i: int, j: int|
            0 <= i < j < entries.len() ==> (#[trigger] entries[i]).0@ != (#[trigger] entries[j]).0@,
    ensures
        indexed_signature(
            entries.subrange(0, k) + entries.subrange(k + 1, entries.len() as int),
            name,
        ) == if name == removed_name {
            None::<FunctionSignatureView>
        } else {
            indexed_signature(entries, name)
        },
    decreases entries.len(),
{
    let shortened = entries.subrange(0, k) + entries.subrange(k + 1, entries.len() as int);
    if k == 0 {
        assert(shortened =~= entries.drop_first());
        if name == removed_name {
            lemma_indexed_signature_absent(entries.drop_first(), name);
        }
    } else {
        assert(entries.first() == shortened.first());
        assert(shortened.drop_first() =~= entries.drop_first().subrange(0, k - 1)
            + entries.drop_first().subrange(k, entries.drop_first().len() as int));
        lemma_indexed_signature_remove(entries.drop_first(), k - 1, removed_name, name);
    }
}

/// A name that no entry carries looks up to nothing.
proof fn lemma_indexed_signature_absent(entries: Seq<(String, FunctionSignature)>, name: Seq<char>)
    requires
        forall|i: int| 0 <= i < entries.len() ==> (#[trigger] entries[i]).0@ != name,
    ensures
        indexed_signature(entries, name) is None,
    decreases entries.len(),
{
    if entries.len() > 0 {
        assert(entries[0] == entries.first());
        lemma_indexed_signature_absent(entries.drop_first(), name);
    }
}

/// One build step from the front: the entry at `i`, coming last, wins over
/// everything before it.
proof fn lemma_built_signature_take_step(
    all: Seq<(FunctionID, ParsedFunction)>,
    i: int,
    name: Seq<char>,
)
    requires
        0 <= i < all.len(),
    ensures
        built_signature(all.take(i + 1), name) == if all[i].1.signature.ident@ == name {
            Some(signature_of_parsed(all[i].0, all[i].1))
        } else {
            built_signature(all.take(i), name)
        },
    decreases i,
{
    if i == 0 {
        let one = all.take(1);
        assert(one.first() == all[0]);
        assert(one.drop_first() =~= Seq::<(FunctionID, ParsedFunction)>::empty());
        assert(all.take(0) =~= Seq::<(FunctionID, ParsedFunction)>::empty());
    } else {
        assert(all.take(i + 1).first() == all.take(i).first());
        assert(all.take(i + 1).first() == all.first());
        assert(all.take(i + 1).drop_first() =~= all.drop_first().take(i));
        assert(all.take(i).drop_first() =~= all.drop_first().take(i - 1));
        assert(all.drop_first()[i - 1] == all[i]);
        lemma_built_signature_take_step(all.drop_first(), i - 1, name);
    }
}

impl FunctionSignatureIndex for HashMapFunctionSignatureIndex {
    open spec fn signature_named(&self, name: Seq<char>) -> Option<FunctionSignatureView> {
        indexed_signature(self.entries(), name)
    }

    fn get_function_signature<'a>(&'a self, name: &str) -> (r: Result<
        Option<MaybeOwns<'a, FunctionSignature>>,
        FunctionReadError,
    >) {
        let owned = String::from_str(name);
        let n = self.index.len();
        let mut i: usize = 0;
        proof {
            assert(self.index@.skip(0) =~= self.index@);
        }
        while i < n
            invariant
                i <= n,
                n == self.index@.len(),
                owned@ == name@,
                indexed_signature(self.index@, name@) == indexed_signature(
                    self.index@.skip(i as int),
                    name@,
                ),
            decreases n - i,
        {
            proof {
                assert(self.index@.skip(i as int).first() == self.index@[i as int]);
                assert(self.index@.skip(i as int).drop_first() =~= self.index@.skip(i + 1));
            }
            let entry = &self.index[i];
            if entry.0 == owned {
                return Ok(Some(MaybeOwns::Borrowed(&entry.1)));
            }
            i = i + 1;
        }
        proof {
            assert(self.index@.skip(n as int) =~= Seq::<(String, FunctionSignature)>::empty());
        }
        Ok(None)
    }
}

/// The decimal digit character for `d`.
pub open spec fn decimal_digit_char(d: nat) -> char
    recommends
        d < 10,
{
    if d == 0 {
        '0'
    } else if d == 1 {
        '1'
    } else if d == 2 {
        '2'
    } else if d == 3 {
        '3'
    } else if d == 4 {
        '4'
    } else if d == 5 {
        '5'
    } else if d == 6 {
        '6'
    } else if d == 7 {
        '7'
    } else if d == 8 {
        '8'
    } else {
        '9'
    }
}

/// The decimal rendering of `n`, most significant digit first.
pub open spec fn decimal_digits(n: nat) -> Seq<char>
    decreases n,
{
    if n < 10 {
        seq![decimal_digit_char(n)]
    } else {
        decimal_digits(n / 10).push(decimal_digit_char(n % 10))
    }
}

fn decimal_digit_str(d: u64) -> (r: &'static str)
    requires
        d < 10,
    ensures
        r@ == seq![decimal_digit_char(d as nat)],
{
    proof {
        reveal_strlit("0");
        reveal_strlit("1");
        reveal_strlit("2");
        reveal_strlit("3");
        reveal_strlit("4");
        reveal_strlit("5");
        reveal_strlit("6");
        reveal_strlit("7");
        reveal_strlit("8");
        reveal_strlit("9");
    }
    if d == 0 {
        "0"
    } else if d == 1 {
        "1"
    } else if d == 2 {
        "2"
    } else if d == 3 {
        "3"
    } else if d == 4 {
        "4"
    } else if d == 5 {
        "5"
    } else if d == 6 {
        "6"
    } else if d == 7 {
        "7"
    } else if d == 8 {
        "8"
    } else {
        "9"
    }
}

/// Renders `n` in decimal.
pub fn u64_decimal_string(n: u64) -> (r: String)
    ensures
        r@ == decimal_digits(n as nat),
    decreases n,
{
    let d = n % 10;
    let digit = decimal_digit_str(d);
    if n < 10 {
        let s = String::new();
        let r = s.concat(digit);
        proof {
            assert(r@ =~= seq![decimal_digit_char(n as nat)]);
        }
        r
    } else {
        let prefix = u64_decimal_string(n / 10);
        let r = prefix.concat(digit);
        proof {
            assert(r@ =~= decimal_digits((n / 10) as nat).push(decimal_digit_char((n % 10) as nat)));
        }
        r
    }
}

impl FunctionID {
    /// A human-readable rendering of the identifier, naming its kind and
    /// its number.
    pub fn display_string(&self) -> (r: String)
        ensures
            self matches FunctionID::Schema(k) ==> r@ == "SchemaFunction#"@ + decimal_digits(
                k.definition_id.id as nat,
            ),
            self matches FunctionID::Preamble(i) ==> r@ == "QueryFunction#"@ + decimal_digits(
                i as nat,
            ),
    {
        match self {
            FunctionID::Schema(definition_key) => {
                let s = String::from_str("SchemaFunction#");
                s.concat(u64_decimal_string(definition_key.definition_id().as_uint()).as_str())
            },
            FunctionID::Preamble(index) => {
                let s = String::from_str("QueryFunction#");
                s.concat(u64_decimal_string(*index as u64).as_str())
            },
        }
    }
}

} // verus!
