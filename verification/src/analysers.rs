//! Analysers of lock files, one for each package ecosystem. An analyser
//! decides which file it reads and turns the entries of that file into
//! dependencies; reading and parsing the file is the caller's.

pub mod dotnet_analyser;
pub mod npm_analyser;
