//! Finding the page that offers help with a theme.

use crate::models::config::{gathered, Config, ConfigView};
use crate::models::theme::{all_named, first_of};
use crate::models::Theme;
use vstd::prelude::*;

verus! {

/// The arguments of `support`.
#[derive(Debug)]
pub struct Support {
    /// The theme that help is wanted for.
    pub name: String,
}

/// What `support` finds.
#[derive(Debug)]
pub enum Help {
    /// The page to open.
    Page(String),
    /// The theme names no page.
    NoPage,
    /// No registry lists the theme.
    UnknownTheme,
}

/// What a [`Help`] holds.
pub enum HelpView {
    Page(Seq<char>),
    NoPage,
    UnknownTheme,
}

impl View for Help {
    type V = HelpView;

    open spec fn view(&self) -> HelpView {
        match self {
            Help::Page(url) => HelpView::Page(url@),
            Help::NoPage => HelpView::NoPage,
            Help::UnknownTheme => HelpView::UnknownTheme,
        }
    }
}

/// The help that the first theme of the given name offers.
pub open spec fn help_for(config: ConfigView, name: Seq<char>) -> HelpView {
    match first_of(all_named(gathered(config.repos, false), name, false)) {
        Some(theme) => match theme.support_url {
            Some(url) => HelpView::Page(url),
            None => HelpView::NoPage,
        },
        None => HelpView::UnknownTheme,
    }
}

impl Support {
    /// The help page of the first theme of the wanted name, in the order of the
    /// registries.
    pub fn exec(&self, config: &Config) -> (r: Help)
        ensures
            r@ == help_for(config@, self.name@),
    {
        match Theme::find(config, self.name.as_str()) {
            Some(theme) => match theme.support_url {
                Some(url) => Help::Page(url),
                None => Help::NoPage,
            },
            None => Help::UnknownTheme,
        }
    }
}

} // verus!
