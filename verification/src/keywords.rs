use vstd::prelude::*;
use once_cell::sync::OnceCell;
use crate::text::chars_of;
use crate::token::TokenType;

verus! {

/// The reserved words with their kinds, in the order in which they are looked up.
pub open spec fn keyword_entries() -> Seq<(Seq<char>, TokenType)> {
    seq![
        ("and"@, TokenType::And),
        ("class"@, TokenType::Class),
        ("else"@, TokenType::Else),
        ("false"@, TokenType::False),
        ("for"@, TokenType::For),
        ("fun"@, TokenType::Fun),
        ("if"@, TokenType::If),
        ("nil"@, TokenType::Nil),
        ("or"@, TokenType::Or),
        ("print"@, TokenType::Print),
        ("return"@, TokenType::Return),
        ("super"@, TokenType::Super),
        ("this"@, TokenType::This),
        ("true"@, TokenType::True),
        ("var"@, TokenType::Var),
        ("while"@, TokenType::While),
    ]
}

/// The kind of the first of `entries`, from position `from` on, whose word is
/// `text`.
pub open spec fn lookup(
    entries: Seq<(Seq<char>, TokenType)>,
    from: int,
    text: Seq<char>,
) -> Option<TokenType>
    decreases entries.len() - from,
{
    if from < 0 || from >= entries.len() {
        None
    } else if entries[from].0 == text {
        Some(entries[from].1)
    } else {
        lookup(entries, from + 1, text)
    }
}

/// The kind of the reserved word that `text` spells, if it spells one.
pub open spec fn keyword_kind(text: Seq<char>) -> Option<TokenType> {
    lookup(keyword_entries(), 0, text)
}

/// Whether `kind` is the kind of a reserved word.
pub open spec fn is_keyword(kind: TokenType) -> bool {
    kind == TokenType::And || kind == TokenType::Class || kind == TokenType::Else || kind
        == TokenType::False || kind == TokenType::For || kind == TokenType::Fun || kind
        == TokenType::If || kind == TokenType::Nil || kind == TokenType::Or || kind
        == TokenType::Print || kind == TokenType::Return || kind == TokenType::Super || kind
        == TokenType::This || kind == TokenType::True || kind == TokenType::Var || kind
        == TokenType::While
}

/// What the table gives for a text is the kind of a reserved word.
pub proof fn lemma_keyword_kind(text: Seq<char>)
    ensures
        keyword_kind(text) is Some ==> is_keyword(keyword_kind(text)->0),
{
    reveal_with_fuel(lookup, 17);
}

/// No reserved word stands twice in the table.
pub proof fn lemma_keywords_distinct()
    ensures
        forall|i: int, j: int|
            0 <= i < j < keyword_entries().len() ==> (#[trigger] keyword_entries()[i]).0 != (
            #[trigger] keyword_entries()[j]).0,
{
    reveal_strlit("and");
    reveal_strlit("class");
    reveal_strlit("else");
    reveal_strlit("false");
    reveal_strlit("for");
    reveal_strlit("fun");
    reveal_strlit("if");
    reveal_strlit("nil");
    reveal_strlit("or");
    reveal_strlit("print");
    reveal_strlit("return");
    reveal_strlit("super");
    reveal_strlit("this");
    reveal_strlit("true");
    reveal_strlit("var");
    reveal_strlit("while");
    let entries = keyword_entries();
    assert forall|i: int, j: int| 0 <= i < j < entries.len() implies (#[trigger] entries[i]).0 != (
    #[trigger] entries[j]).0 by {
        let a = entries[i].0;
        let b = entries[j].0;
        if a.len() == b.len() {
            assert(a[0] != b[0] || a[1] != b[1] || a[2] != b[2]);
        }
    }
}

/// One reserved word of a table, as a mathematical value.
pub open spec fn entry_view(entry: (Vec<char>, TokenType)) -> (Seq<char>, TokenType) {
    (entry.0@, entry.1)
}

/// The table of the reserved words.
pub struct KeywordTable {
    entries: Vec<(Vec<char>, TokenType)>,
}

impl View for KeywordTable {
    type V = Seq<(Seq<char>, TokenType)>;

    closed spec fn view(&self) -> Seq<(Seq<char>, TokenType)> {
        Seq::new(self.entries@.len(), |i: int| entry_view(self.entries@[i]))
    }
}

/// Whether `a` and `b` hold the same characters.
fn same_text(a: &[char], b: &[char]) -> (same: bool)
    ensures
        same == (a@ == b@),
{
    if a.len() != b.len() {
        return false;
    }
    let mut i: usize = 0;
    while i < a.len()
        invariant
            a@.len() == b@.len(),
            i <= a@.len(),
            a@.take(i as int) == b@.take(i as int),
        decreases a@.len() - i,
    {
        if a[i] != b[i] {
            return false;
        }
        i += 1;
        assert(a@.take(i as int) == a@.take(i - 1).push(a@[i - 1]));
        assert(b@.take(i as int) == b@.take(i - 1).push(b@[i - 1]));
    }
    assert(a@ == a@.take(a@.len() as int));
    assert(b@ == b@.take(b@.len() as int));
    true
}

impl KeywordTable {
    /// Every table holds the reserved words, all of them and nothing else.
    #[verifier::type_invariant]
    spec fn complete(&self) -> bool {
        self@ == keyword_entries()
    }

    /// Appends the reserved word `word` with its kind to `entries`.
    fn add(entries: &mut Vec<(Vec<char>, TokenType)>, word: &str, kind: TokenType)
        ensures
            final(entries)@.len() == old(entries)@.len() + 1,
            forall|i: int|
                0 <= i < old(entries)@.len() ==> final(entries)@[i] == old(entries)@[i],
            entry_view(final(entries)@[old(entries)@.len() as int]) == (word@, kind),
    {
        entries.push((chars_of(word), kind));
    }

    /// The table of the reserved words.
    pub fn new() -> (table: KeywordTable)
        ensures
            table@ == keyword_entries(),
    {
        let mut entries: Vec<(Vec<char>, TokenType)> = Vec::new();
        Self::add(&mut entries, "and", TokenType::And);
        Self::add(&mut entries, "class", TokenType::Class);
        Self::add(&mut entries, "else", TokenType::Else);
        Self::add(&mut entries, "false", TokenType::False);
        Self::add(&mut entries, "for", TokenType::For);
        Self::add(&mut entries, "fun", TokenType::Fun);
        Self::add(&mut entries, "if", TokenType::If);
        Self::add(&mut entries, "nil", TokenType::Nil);
        Self::add(&mut entries, "or", TokenType::Or);
        Self::add(&mut entries, "print", TokenType::Print);
        Self::add(&mut entries, "return", TokenType::Return);
        Self::add(&mut entries, "super", TokenType::Super);
        Self::add(&mut entries, "this", TokenType::This);
        Self::add(&mut entries, "true", TokenType::True);
        Self::add(&mut entries, "var", TokenType::Var);
        Self::add(&mut entries, "while", TokenType::While);
        assert(Seq::new(entries@.len(), |i: int| entry_view(entries@[i])) =~= keyword_entries());
        KeywordTable { entries }
    }

    /// The kind of the reserved word that `word` spells, if it spells one.
    pub fn get(&self, word: &[char]) -> (kind: Option<TokenType>)
        ensures
            kind == keyword_kind(word@),
    {
        proof {
            use_type_invariant(self);
        }
        let mut i: usize = 0;
        while i < self.entries.len()
            invariant
                i <= self.entries@.len(),
                self@ == keyword_entries(),
                lookup(self@, i as int, word@) == keyword_kind(word@),
            decreases self.entries@.len() - i,
        {
            if same_text(self.entries[i].0.as_slice(), word) {
                return Some(self.entries[i].1);
            }
            i += 1;
        }
        None
    }
}

/// `once_cell::sync::OnceCell`, a cell that is written at most once. The
/// verifier sees nothing inside it.
#[verifier::external_type_specification]
#[verifier::external_body]
#[verifier::reject_recursive_types(T)]
pub struct ExOnceCell<T>(OnceCell<T>);

/// `OnceCell::new` makes an empty cell. Nothing is claimed of the cell.
pub assume_specification<T>[ OnceCell::<T>::new ]() -> (cell: OnceCell<T>);

/// `OnceCell::get_or_init`, with `KeywordTable::new` as the function that
/// fills the cell if it is still empty: a reference to the table in the cell.
/// Nothing is claimed of that table. That it is complete is known of every
/// `KeywordTable`, and the cell can only hold one that `KeywordTable::new` made.
#[verifier::external_body]
pub(crate) fn table_in(cell: &OnceCell<KeywordTable>) -> (table: &KeywordTable) {
    cell.get_or_init(KeywordTable::new)
}

} // verus!
