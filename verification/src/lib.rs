//! A verified codec for the PEP 503 "Simple Repository API" index format:
//! the constrained subset of HTML that Python package indexes use to list
//! either every package name in a repository (the root index) or every
//! downloadable artifact of one package (a package index).
//!
//! Raw HTML is turned into a sequence of anchors by a general-purpose HTML
//! parser behind a small trusted boundary; everything that interprets those
//! anchors, and everything that renders a model back into canonical HTML,
//! is verified.

mod anchor;
mod normalize;
mod package;
mod render;
mod root;

pub use anchor::Anchor;
pub use normalize::normalize;
pub use package::{PackageIndex, Release};
pub use root::RootIndex;
