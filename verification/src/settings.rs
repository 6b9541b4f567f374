//! The operator table of a parsing session.

use vstd::prelude::*;
use vstd::string::StringExecFns;

verus! {

/// The mapping an association list stands for: entries nearer the front
/// shadow entries behind them.
pub open spec fn ops_map(entries: Seq<(String, i32)>) -> Map<Seq<char>, int>
    decreases entries,
{
    if entries.len() == 0 {
        Map::empty()
    } else {
        ops_map(entries.subrange(1, entries.len() as int)).insert(
            entries[0].0@,
            entries[0].1 as int,
        )
    }
}

/// The operator table: a mapping from operator symbol to binding precedence.
/// It is owned by one parsing session; a successfully parsed `binary`
/// prototype extends it, and every binary expression parsed afterwards in the
/// same session reads the new entry.
pub struct ParserSettings {
    op_precedence: Vec<(String, i32)>,
}

impl View for ParserSettings {
    type V = Map<Seq<char>, int>;

    closed spec fn view(&self) -> Map<Seq<char>, int> {
        ops_map(self.op_precedence@)
    }
}

impl ParserSettings {
    /// Looks a symbol up: the precedence under which the table holds it, or
    /// `None` for a symbol the table does not know.
    pub fn lookup(&self, symbol: &String) -> (r: Option<i32>)
        ensures
            match r {
                Some(prec) => self@.contains_key(symbol@) && self@[symbol@] == prec as int,
                None => !self@.contains_key(symbol@),
            },
    {
        proof {
            assert(self.op_precedence@.subrange(0, self.op_precedence@.len() as int)
                =~= self.op_precedence@);
        }
        lookup_at(&self.op_precedence, 0, symbol)
    }

    /// Declares a symbol with a precedence: inserts it, or overwrites the
    /// precedence the table held for it.
    pub fn declare(&mut self, symbol: &String, precedence: i32)
        ensures
            final(self)@ == old(self)@.insert(symbol@, precedence as int),
    {
        let ghost before = self.op_precedence@;
        self.op_precedence.insert(0, (symbol.clone(), precedence));
        proof {
            assert(self.op_precedence@.subrange(1, self.op_precedence@.len() as int) =~= before);
        }
    }
}

/// Scans the association list from position `i` on and returns the precedence
/// of the first entry holding the symbol.
fn lookup_at(entries: &Vec<(String, i32)>, i: usize, symbol: &String) -> (r: Option<i32>)
    requires
        i <= entries@.len(),
    ensures
        ({
            let m = ops_map(entries@.subrange(i as int, entries@.len() as int));
            match r {
                Some(prec) => m.contains_key(symbol@) && m[symbol@] == prec as int,
                None => !m.contains_key(symbol@),
            }
        }),
    decreases entries@.len() - i,
{
    if i >= entries.len() {
        proof {
            assert(entries@.subrange(i as int, entries@.len() as int) =~= Seq::<(
                String,
                i32,
            )>::empty());
        }
        None
    } else {
        let ghost tail = entries@.subrange(i as int, entries@.len() as int);
        proof {
            assert(tail[0] == entries@[i as int]);
            assert(tail.subrange(1, tail.len() as int) =~= entries@.subrange(
                i as int + 1,
                entries@.len() as int,
            ));
        }
        let entry = &entries[i];
        if entry.0 == *symbol {
            Some(entry.1)
        } else {
            lookup_at(entries, i + 1, symbol)
        }
    }
}

/// The operator table a fresh session starts from: parentheses bind at 100,
/// `=` at 2, `<` at 10, `+` and `-` at 20, `*` at 40.
pub open spec fn seeded_ops() -> Map<Seq<char>, int> {
    Map::empty().insert("("@, 100).insert(")"@, 100).insert("="@, 2).insert("<"@, 10).insert(
        "+"@,
        20,
    ).insert("-"@, 20).insert("*"@, 40)
}

/// A fresh operator table, seeded with the built-in operators.
pub fn default_parser_settings() -> (s: ParserSettings)
    ensures
        s@ == seeded_ops(),
{
    let mut s = ParserSettings { op_precedence: Vec::new() };
    s.declare(&String::from_str("("), 100);
    s.declare(&String::from_str(")"), 100);
    s.declare(&String::from_str("="), 2);
    s.declare(&String::from_str("<"), 10);
    s.declare(&String::from_str("+"), 20);
    s.declare(&String::from_str("-"), 20);
    s.declare(&String::from_str("*"), 40);
    s
}

} // verus!
