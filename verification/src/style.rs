//! The looks of the fake terminal: who seems to be logged in where, and how
//! fast they seem to type.

use crate::speed::Speed;
use crossterm::style::Stylize;
use vstd::prelude::*;
use vstd::string::*;

verus! {

/// The state that the changes of looks act on.
pub struct Style {
    speed: Speed,
    cwd: String,
    host: String,
    user: String,
}

/// The view of a [`Style`].
pub struct StyleView {
    pub speed: Seq<char>,
    pub cwd: Seq<char>,
    pub host: Seq<char>,
    pub user: Seq<char>,
}

impl DeepView for Style {
    type V = StyleView;

    closed spec fn deep_view(&self) -> StyleView {
        StyleView { speed: self.speed@, cwd: self.cwd@, host: self.host@, user: self.user@ }
    }
}

/// The looks at the start of a playback: forty milliseconds a character, in
/// the home directory of `ubuntu` on `ubuntu`.
pub open spec fn standard_style() -> StyleView {
    StyleView {
        speed: seq!['0', '.', '0', '4'],
        cwd: "~"@,
        host: "ubuntu"@,
        user: "ubuntu"@,
    }
}

/// The prompt, put together from its four parts as they are shown.
pub open spec fn prompt_line(
    user: Seq<char>,
    at: Seq<char>,
    host: Seq<char>,
    cwd: Seq<char>,
) -> Seq<char> {
    user + at + host + ":"@ + cwd + "$ "@
}

/// Formats `text` as `crossterm` styles it in bold green, that is
/// `text.bold().green()` written out with `{}`. What surrounds the text
/// depends on the terminal and on the environment, so nothing is stated of
/// the result.
#[verifier::external_body]
fn bold_green(text: &str) -> (shown: String) {
    format!("{}", text.bold().green())
}

/// Formats `text` as `crossterm` styles it in bold blue, that is
/// `text.blue().bold()` written out with `{}`. What surrounds the text
/// depends on the terminal and on the environment, so nothing is stated of
/// the result.
#[verifier::external_body]
fn bold_blue(text: &str) -> (shown: String) {
    format!("{}", text.blue().bold())
}

impl Default for Style {
    fn default() -> (style: Style)
        ensures
            style.deep_view() == standard_style(),
    {
        Style {
            speed: Speed::standard(),
            cwd: String::from_str("~"),
            host: String::from_str("ubuntu"),
            user: String::from_str("ubuntu"),
        }
    }
}

impl Style {
    /// Puts the prompt together from its parts as they are to be shown:
    /// user, the sign between user and host, host and directory.
    pub fn assemble(user: &str, at: &str, host: &str, cwd: &str) -> (prompt: String)
        ensures
            prompt@ == prompt_line(user@, at@, host@, cwd@),
    {
        let mut prompt = String::from_str(user);
        prompt.append(at);
        prompt.append(host);
        prompt.append(":");
        prompt.append(cwd);
        prompt.append("$ ");
        prompt
    }

    /// The prompt with its colours: user, `@` and host in bold green, the
    /// directory in bold blue. How the colours are written depends on the
    /// terminal; the parts are put together as [`Style::assemble`] does it.
    pub fn ps1(&self) -> (prompt: String)
        ensures
            exists|user: Seq<char>, at: Seq<char>, host: Seq<char>, cwd: Seq<char>|
                prompt@ == prompt_line(user, at, host, cwd),
    {
        let user: String = bold_green(self.user.as_str());
        let at: String = bold_green("@");
        let host: String = bold_green(self.host.as_str());
        let cwd: String = bold_blue(self.cwd.as_str());
        Self::assemble(user.as_str(), at.as_str(), host.as_str(), cwd.as_str())
    }

    /// The prompt without colours.
    pub fn plain_ps1(&self) -> (prompt: String)
        ensures
            prompt@ == prompt_line(
                self.deep_view().user,
                "@"@,
                self.deep_view().host,
                self.deep_view().cwd,
            ),
    {
        Self::assemble(self.user.as_str(), "@", self.host.as_str(), self.cwd.as_str())
    }

    /// The typing speed.
    pub fn speed(&self) -> (speed: &Speed)
        ensures
            speed@ == self.deep_view().speed,
    {
        &self.speed
    }

    /// The directory shown in the prompt.
    pub fn cwd(&self) -> (cwd: &str)
        ensures
            cwd@ == self.deep_view().cwd,
    {
        self.cwd.as_str()
    }

    /// The host shown in the prompt.
    pub fn host(&self) -> (host: &str)
        ensures
            host@ == self.deep_view().host,
    {
        self.host.as_str()
    }

    /// The user shown in the prompt.
    pub fn user(&self) -> (user: &str)
        ensures
            user@ == self.deep_view().user,
    {
        self.user.as_str()
    }

    /// Changes the typing speed.
    pub fn set_speed(&mut self, speed: Speed)
        ensures
            final(self).deep_view() == (StyleView { speed: speed@, ..old(self).deep_view() }),
    {
        self.speed = speed;
    }

    /// Changes the directory shown in the prompt.
    pub fn set_cwd(&mut self, cwd: String)
        ensures
            final(self).deep_view() == (StyleView { cwd: cwd@, ..old(self).deep_view() }),
    {
        self.cwd = cwd;
    }

    /// Changes the host shown in the prompt.
    pub fn set_host(&mut self, host: String)
        ensures
            final(self).deep_view() == (StyleView { host: host@, ..old(self).deep_view() }),
    {
        self.host = host;
    }

    /// Changes the user shown in the prompt.
    pub fn set_user(&mut self, user: String)
        ensures
            final(self).deep_view() == (StyleView { user: user@, ..old(self).deep_view() }),
    {
        self.user = user;
    }
}

} // verus!
