//! The question over the window: may this phone show its screen here?

use vstd::prelude::*;

use crate::consent::Answer;
use crate::net::protocol::{ids_are_shown_by_their_end, shorten, shortened};
use crate::text::upper;

verus! {

/// What stands under the question.
pub const REASSURANCE: &'static str =
    "The stream stays on your local network. You can take this back at any time.";

/// One question.
#[derive(Debug)]
pub struct Question {
    pub device: String,
    pub id: String,
}

/// A button the person can press.
#[derive(Debug, Clone, Copy)]
pub struct Button {
    pub answer: Answer,
    pub label: &'static str,
    /// The one that stands out.
    pub primary: bool,
}

impl Question {
    pub fn new(device: String, id: String) -> (question: Self)
        ensures
            question == (Question { device, id }),
    {
        Self { device, id }
    }

    /// The tail of the identifier, the way the phone shows it too.
    pub fn short_id(&self) -> (short: String)
        ensures
            short@ == shortened(self.id@),
    {
        shorten(self.id.as_str())
    }

    /// What the question says.
    pub open spec fn asked(self) -> Seq<char> {
        self.device@ + " wants to show its screen"@
    }

    /// What the question says.
    pub fn headline(&self) -> (text: String)
        ensures
            text@ == self.asked(),
    {
        let mut text = self.device.clone();
        text.append(" wants to show its screen");
        text
    }

    /// The line that tells one phone from another.
    pub open spec fn identified(self) -> Seq<char> {
        "Device ID …"@ + shortened(self.id@) + " · this network only"@
    }

    /// The line that tells one phone from another.
    pub fn sub_line(&self) -> (text: String)
        ensures
            text@ == self.identified(),
    {
        let mut text = "Device ID …".to_owned();
        text.append(self.short_id().as_str());
        text.append(" · this network only");
        text
    }

    /// Whether these are the buttons under the question.
    pub open spec fn are_buttons(buttons: Seq<Button>) -> bool {
        &&& buttons.len() == 3
        &&& buttons[0].answer == Answer::Allow
        &&& buttons[0].label@ == "Allow"@
        &&& buttons[1].answer == Answer::Always
        &&& buttons[1].label@ == "Always allow"@
        &&& buttons[2].answer == Answer::Decline
        &&& buttons[2].label@ == "Decline"@
        &&& forall|i: int| 0 <= i < 3 ==> (#[trigger] buttons[i]).primary == (i == 0)
    }

    /// The ways to answer, in the order of their buttons.
    pub fn buttons() -> (buttons: Vec<Button>)
        ensures
            Question::are_buttons(buttons@),
    {
        let mut buttons: Vec<Button> = Vec::new();
        buttons.push(Button { answer: Answer::Allow, label: "Allow", primary: true });
        buttons.push(Button { answer: Answer::Always, label: "Always allow", primary: false });
        buttons.push(Button { answer: Answer::Decline, label: "Decline", primary: false });
        buttons
    }

    /// Whether this tells which phone was decided about, what it is called, and the answer.
    pub open spec fn is_answered(self, told: (String, String, Answer), answer: Answer) -> bool {
        &&& told.0@ == self.id@
        &&& told.1@ == self.device@
        &&& told.2 == answer
    }

    /// What whoever is waiting is told when the person has decided: which phone it is about, what
    /// it is called, and the answer.
    pub fn send(&self, answer: Answer) -> (told: (String, String, Answer))
        ensures
            self.is_answered(told, answer),
    {
        (self.id.clone(), self.device.clone(), answer)
    }
}

/// The question names the phone by what it is called and by the end of its id.
pub proof fn questions_name_the_phone(question: Question, front: Seq<char>, end: Seq<char>)
    requires
        question.id@ == front + end,
        end.len() == 8,
    ensures
        question.asked() == question.device@ + " wants to show its screen"@,
        question.identified() == "Device ID …"@ + upper(end) + " · this network only"@,
        REASSURANCE@
            == "The stream stays on your local network. You can take this back at any time."@,
{
    ids_are_shown_by_their_end(front, end);
}

/// Every answer has one button, which says so; only the first stands out.
pub proof fn every_answer_has_a_button(buttons: Seq<Button>)
    requires
        Question::are_buttons(buttons),
    ensures
        buttons.len() == 3,
        buttons[0].answer == Answer::Allow && buttons[0].label@ == "Allow"@ && buttons[0].primary,
        buttons[1].answer == Answer::Always && buttons[1].label@ == "Always allow"@
            && !buttons[1].primary,
        buttons[2].answer == Answer::Decline && buttons[2].label@ == "Decline"@
            && !buttons[2].primary,
{
}

/// An answer is told of the phone it is about.
pub proof fn answers_are_told_of_their_phone(
    question: Question,
    told: (String, String, Answer),
    answer: Answer,
)
    requires
        question.is_answered(told, answer),
    ensures
        told.0@ == question.id@,
        told.1@ == question.device@,
        told.2 == answer,
{
}

} // verus!
