//! What the user configures of a site.

use vstd::prelude::*;
use crate::text::{chars_of, decimal, decimal_of, push_all, string_of};

verus! {

/// The settings of a site.
#[derive(Debug, Clone)]
pub struct Config {
    /// The base URL that every internal link starts with.
    pub url: String,
    pub title: String,
    pub attachment_directory: Option<String>,
    pub description: Option<String>,
    /// Directories, relative to the site's own, whose documents are left out.
    pub ignored_directories: Option<Vec<String>>,
    pub tags_url: Option<String>,
    pub theme: Option<String>,
}

/// The address under which a site is served while it is watched.
pub open spec fn watch_url(port: u16) -> Seq<char> {
    "http://localhost:"@ + decimal(port as nat)
}

impl Config {
    /// The settings that a command works with, made of those that the user
    /// wrote down. While a site is watched it is served from this machine,
    /// so its base URL becomes the local address with the port that was
    /// asked for. Everything else stays.
    pub fn new(user_config: Config, watch_port: Option<u16>) -> (r: Config)
        ensures
            r.url@ == (match watch_port {
                Some(port) => watch_url(port),
                None => user_config.url@,
            }),
            r.title == user_config.title,
            r.attachment_directory == user_config.attachment_directory,
            r.description == user_config.description,
            r.ignored_directories == user_config.ignored_directories,
            r.tags_url == user_config.tags_url,
            r.theme == user_config.theme,
    {
        match watch_port {
            Some(port) => {
                let mut url = chars_of("http://localhost:");
                let digits = decimal_of(port);
                push_all(&mut url, &digits);
                Config {
                    url: string_of(&url),
                    title: user_config.title,
                    attachment_directory: user_config.attachment_directory,
                    description: user_config.description,
                    ignored_directories: user_config.ignored_directories,
                    tags_url: user_config.tags_url,
                    theme: user_config.theme,
                }
            },
            None => user_config,
        }
    }
}

} // verus!
