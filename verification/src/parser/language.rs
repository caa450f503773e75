//! The language: which tags, blocks and filters a template may use.

use vstd::prelude::*;
use crate::filters::standard::Size;
use crate::tags::assign_tag::AssignTag;
use crate::tags::case_block::CaseBlock;
use crate::tags::if_block::{IfBlock, UnlessBlock};
use crate::text::str_eq;

verus! {

/// The parsers of blocks.
#[derive(Clone, Copy, Debug)]
pub enum BlockParser {
    If(IfBlock),
    Unless(UnlessBlock),
    Case(CaseBlock),
}

/// The parsers of tags.
#[derive(Clone, Copy, Debug)]
pub enum TagParser {
    Assign(AssignTag),
}

/// The parsers of filters.
#[derive(Clone, Copy, Debug)]
pub enum FilterParser {
    Size(Size),
    Default(crate::filters::standard::Default),
}

/// The parser registered under `name`: the one registered last.
pub open spec fn find<P>(table: Seq<(Seq<char>, P)>, name: Seq<char>) -> Option<P>
    decreases table.len(),
{
    if table.len() == 0 {
        None
    } else if table.last().0 == name {
        Some(table.last().1)
    } else {
        find(table.drop_last(), name)
    }
}

/// The entries of a registry as mathematical data.
pub open spec fn table_view<P>(entries: Seq<(String, P)>) -> Seq<(Seq<char>, P)> {
    Seq::new(entries.len(), |i: int| (entries[i].0@, entries[i].1))
}

/// A table from names to parsers.
#[derive(Debug)]
pub struct PluginRegistry<P> {
    entries: Vec<(String, P)>,
}

impl<P> View for PluginRegistry<P> {
    type V = Seq<(Seq<char>, P)>;

    closed spec fn view(&self) -> Seq<(Seq<char>, P)> {
        table_view(self.entries@)
    }
}

impl<P: Copy> PluginRegistry<P> {
    /// A registry without parsers.
    pub fn new() -> (r: Self)
        ensures
            r@ == Seq::<(Seq<char>, P)>::empty(),
    {
        let r = PluginRegistry { entries: Vec::new() };
        assert(r@ =~= Seq::empty());
        r
    }

    /// Registers `parser` under `name`, in place of any parser registered
    /// under that name before.
    pub fn register(&mut self, name: String, parser: P)
        ensures
            final(self)@ == old(self)@.push((name@, parser)),
    {
        self.entries.push((name, parser));
        assert(self@ =~= old(self)@.push((name@, parser)));
    }

    /// The parser registered under `name`, if there is one.
    pub fn get(&self, name: &str) -> (r: Option<P>)
        ensures
            r == find(self@, name@),
    {
        let mut i: usize = self.entries.len();
        assert(self@.take(i as int) =~= self@);
        while i > 0
            invariant
                i <= self.entries@.len(),
                find(self@, name@) == find(self@.take(i as int), name@),
            decreases i,
        {
            assert(self@.take(i as int).last() == (
                self.entries@[i - 1].0@,
                self.entries@[i - 1].1,
            ));
            assert(self@.take(i as int).drop_last() =~= self@.take(i - 1));
            if str_eq(self.entries[i - 1].0.as_str(), name) {
                return Some(self.entries[i - 1].1);
            }
            i -= 1;
        }
        None
    }

    /// The number of registrations.
    pub fn len(&self) -> (n: usize)
        ensures
            n == self@.len(),
    {
        self.entries.len()
    }
}

/// A language as mathematical data.
pub struct LanguageModel {
    pub blocks: Seq<(Seq<char>, BlockParser)>,
    pub tags: Seq<(Seq<char>, TagParser)>,
    pub filters: Seq<(Seq<char>, FilterParser)>,
}

/// The tags, blocks and filters that a template may use.
#[derive(Debug)]
pub struct Language {
    pub blocks: PluginRegistry<BlockParser>,
    pub tags: PluginRegistry<TagParser>,
    pub filters: PluginRegistry<FilterParser>,
}

impl View for Language {
    type V = LanguageModel;

    open spec fn view(&self) -> LanguageModel {
        LanguageModel { blocks: self.blocks@, tags: self.tags@, filters: self.filters@ }
    }
}

impl Language {
    /// The language with the blocks `if`, `unless` and `case`, the tag
    /// `assign` and the filters `size` and `default`.
    pub fn standard() -> (l: Language)
        ensures
            l@.blocks == seq![
                ("if"@, BlockParser::If(IfBlock)),
                ("unless"@, BlockParser::Unless(UnlessBlock)),
                ("case"@, BlockParser::Case(CaseBlock)),
            ],
            l@.tags == seq![("assign"@, TagParser::Assign(AssignTag))],
            l@.filters == seq![
                ("size"@, FilterParser::Size(Size)),
                ("default"@, FilterParser::Default(crate::filters::standard::Default)),
            ],
    {
        let mut l = Language::empty();
        l.blocks.register("if".to_owned(), BlockParser::If(IfBlock));
        l.blocks.register("unless".to_owned(), BlockParser::Unless(UnlessBlock));
        l.blocks.register("case".to_owned(), BlockParser::Case(CaseBlock));
        l.tags.register("assign".to_owned(), TagParser::Assign(AssignTag));
        l.filters.register("size".to_owned(), FilterParser::Size(Size));
        l.filters.register(
            "default".to_owned(),
            FilterParser::Default(crate::filters::standard::Default),
        );
        proof {
            assert(l@.blocks =~= seq![
                ("if"@, BlockParser::If(IfBlock)),
                ("unless"@, BlockParser::Unless(UnlessBlock)),
                ("case"@, BlockParser::Case(CaseBlock)),
            ]);
            assert(l@.tags =~= seq![("assign"@, TagParser::Assign(AssignTag))]);
            assert(l@.filters =~= seq![
                ("size"@, FilterParser::Size(Size)),
                ("default"@, FilterParser::Default(crate::filters::standard::Default)),
            ]);
        }
        l
    }

    /// A language without tags, blocks and filters.
    pub fn empty() -> (l: Language)
        ensures
            l@ == (LanguageModel {
                blocks: Seq::empty(),
                tags: Seq::empty(),
                filters: Seq::empty(),
            }),
    {
        Language {
            blocks: PluginRegistry::new(),
            tags: PluginRegistry::new(),
            filters: PluginRegistry::new(),
        }
    }
}

} // verus!
