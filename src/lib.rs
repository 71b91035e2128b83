//! A study library. Its main part, `file_groups`, groups the files of a
//! directory by the id in their names and flags groups whose members disagree
//! on extension or on the presence of a serial marker. The other modules hold
//! small exercises: text search (`minigrep`), a guessing game's decisions
//! (`guessing`), a blog post's workflow (`blog`), copy on write (`cow`), a
//! linear prediction (`iterators`), a quota tracker (`quota`), workers sharing
//! a log (`workers`), a lamp and its switches (`lamp`), and small items on
//! modules, testing and patterns.
pub mod file_groups;
pub mod minigrep;
pub mod restaurant;
pub mod testing;
pub mod colors;
pub mod quota;
pub mod workers;
pub mod lamp;
pub mod basics;
pub mod cow;
pub mod iterators;
pub mod blog;
pub mod guessing;
