//! The two-stage link prompt: choose issue or PR, then type its number.

use vstd::prelude::*;
use crate::text::{ascii_digit, chars_of, is_ascii_digit, string_of};

verus! {

/// What a worktree's branch can be linked to.
#[derive(Debug, Clone, Copy, PartialEq, Eq, Structural)]
pub enum LinkTarget {
    Issue,
    Pr,
}

/// Which half of the prompt is showing.
#[derive(Debug, Default, PartialEq, Eq, Clone, Copy, Structural)]
pub enum LinkPromptStage {
    #[default]
    ChooseTarget,
    InputNumber,
}

#[derive(Debug, Default)]
pub struct LinkPrompt {
    pub stage: LinkPromptStage,
    pub target: Option<LinkTarget>,
    pub number: String,
}

impl LinkPrompt {
    /// At the choice, nothing chosen, no number.
    pub fn new() -> (r: LinkPrompt)
        ensures
            r.stage == LinkPromptStage::ChooseTarget,
            r.target is None,
            r.number@.len() == 0,
    {
        LinkPrompt { stage: LinkPromptStage::ChooseTarget, target: None, number: String::new() }
    }

    /// Back to the choice, nothing chosen, no number.
    pub fn reset(&mut self)
        ensures
            final(self).stage == LinkPromptStage::ChooseTarget,
            final(self).target is None,
            final(self).number@.len() == 0,
    {
        self.stage = LinkPromptStage::ChooseTarget;
        self.target = None;
        self.number = String::new();
    }

    /// Flip the highlighted choice (issue first); only at the choice.
    pub fn toggle_target(&mut self)
        ensures
            final(self).stage == old(self).stage,
            final(self).number@ == old(self).number@,
            old(self).stage != LinkPromptStage::ChooseTarget ==> final(self).target == old(self).target,
            old(self).stage == LinkPromptStage::ChooseTarget ==> final(self).target == Some(
                if old(self).target == Some(LinkTarget::Issue) { LinkTarget::Pr } else { LinkTarget::Issue },
            ),
    {
        if self.stage != LinkPromptStage::ChooseTarget {
            return;
        }
        self.target = Some(
            match self.target {
                Some(LinkTarget::Issue) => LinkTarget::Pr,
                _ => LinkTarget::Issue,
            },
        );
    }

    /// Settle on `target` and move to the number, starting empty.
    pub fn commit_target(&mut self, target: LinkTarget)
        ensures
            final(self).target == Some(target),
            final(self).stage == LinkPromptStage::InputNumber,
            final(self).number@.len() == 0,
    {
        self.target = Some(target);
        self.stage = LinkPromptStage::InputNumber;
        self.number = String::new();
    }

    /// Type a digit of the number; anything else, or any key at the
    /// choice, is ignored.
    pub fn push_char(&mut self, c: char)
        ensures
            final(self).stage == old(self).stage,
            final(self).target == old(self).target,
            final(self).number@ == if old(self).stage == LinkPromptStage::InputNumber && ascii_digit(c) {
                old(self).number@.push(c)
            } else {
                old(self).number@
            },
    {
        if self.stage == LinkPromptStage::InputNumber && is_ascii_digit(c) {
            let mut v = chars_of(self.number.as_str());
            v.push(c);
            self.number = string_of(v.as_slice());
        }
    }

    /// Delete the number's last digit; only while typing the number.
    pub fn pop_char(&mut self)
        ensures
            final(self).stage == old(self).stage,
            final(self).target == old(self).target,
            final(self).number@ == if old(self).stage == LinkPromptStage::InputNumber && old(self).number@.len() > 0 {
                old(self).number@.drop_last()
            } else {
                old(self).number@
            },
    {
        if self.stage == LinkPromptStage::InputNumber {
            let mut v = chars_of(self.number.as_str());
            if v.len() > 0 {
                v.pop();
                self.number = string_of(v.as_slice());
            }
        }
    }
}

/// Toggling the choice twice comes back to the first toggle's choice.
pub proof fn law_toggle_twice(t: Option<LinkTarget>)
    ensures
        ({
            let flip = |x: Option<LinkTarget>| Some(if x == Some(LinkTarget::Issue) { LinkTarget::Pr } else { LinkTarget::Issue });
            flip(flip(flip(t))) == flip(t)
        }),
{
}

} // verus!
