//! The conversation assembler: linearizes system prompt, prior history and
//! the new user prompt into the ordered message list a backend consumes.

use vstd::prelude::*;
use vstd::string::StringExecFns;

use crate::ichat::{Message, MessageView, Role};

verus! {

/// The assembled list: the system message first, only when system text is
/// present and non-empty; then every prior message in order; then exactly
/// one user message carrying the new prompt. No assistant message is added
/// for the new prompt.
pub open spec fn assembled(
    system: Option<Seq<char>>,
    history: Seq<MessageView>,
    prompt: Seq<char>,
) -> Seq<MessageView> {
    let head = match system {
        Some(s) => if s.len() > 0 {
            seq![MessageView { role: Role::System, content: s }]
        } else {
            Seq::empty()
        },
        None => Seq::empty(),
    };
    head + history + seq![MessageView { role: Role::User, content: prompt }]
}

/// Builds the message list for one backend call, exactly as `assembled`
/// describes it.
pub fn build_messages(system: &Option<String>, history: &Vec<Message>, prompt: &str) -> (out: Vec<
    Message,
>)
    ensures
        out.deep_view() == assembled(system.deep_view(), history.deep_view(), prompt@),
{
    let mut out: Vec<Message> = Vec::new();
    match system {
        Some(sys) => {
            if !sys.as_str().is_empty() {
                out.push(Message::new(Role::System, sys.clone()));
                proof {
                    assert(out.deep_view() =~= seq![
                        MessageView { role: Role::System, content: sys@ },
                    ]);
                }
            } else {
                proof {
                    assert(out.deep_view() =~= Seq::<MessageView>::empty());
                }
            }
        },
        None => {
            proof {
                assert(out.deep_view() =~= Seq::<MessageView>::empty());
            }
        },
    }
    let ghost head = out.deep_view();
    let mut i: usize = 0;
    proof {
        assert(out.deep_view() =~= head + history.deep_view().take(0));
    }
    while i < history.len()
        invariant
            i <= history.len(),
            out.deep_view() == head + history.deep_view().take(i as int),
        decreases history.len() - i,
    {
        let ghost pdv = out.deep_view();
        let m = history[i].duplicate();
        let ghost mv = m@;
        out.push(m);
        proof {
            assert(out.deep_view() =~= pdv.push(mv));
            assert(mv == history.deep_view()[i as int]);
            assert(history.deep_view().take(i + 1) =~= history.deep_view().take(i as int).push(
                history.deep_view()[i as int],
            ));
            assert(head + history.deep_view().take(i + 1) =~= (head + history.deep_view().take(
                i as int,
            )).push(history.deep_view()[i as int]));
            assert(out.deep_view() == head + history.deep_view().take(i + 1));
        }
        i = i + 1;
    }
    proof {
        assert(history.deep_view().take(history.len() as int) =~= history.deep_view());
    }
    let ghost pdv = out.deep_view();
    out.push(Message::new(Role::User, String::from_str(prompt)));
    proof {
        let mv = MessageView { role: Role::User, content: prompt@ };
        assert(out.deep_view() =~= pdv.push(mv));
        assert(head + history.deep_view() + seq![mv] =~= (head + history.deep_view()).push(mv));
        assert(assembled(system.deep_view(), history.deep_view(), prompt@) == head
            + history.deep_view() + seq![mv]);
    }
    out
}

} // verus!
