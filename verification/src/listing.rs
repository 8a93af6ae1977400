//! Read-only views of the registry for the command layer: the listing
//! of established sessions and the model of the close-selection menu.

use vstd::prelude::*;

use crate::registry::SessionRegistry;
use crate::session::Connection;
use crate::text::{dec_digits, format_list, format_list_spec, u64_to_string};

verus! {

/// One selectable entry of the close menu.
pub struct MenuOption {
    pub label: String,
    pub value: String,
    pub description: Option<String>,
}

/// What the close menu displays; the platform layer only transliterates
/// this into its widget.
pub struct SelectMenuModel {
    /// The dispatch key of the menu interaction.
    pub custom_id: String,
    pub options: Vec<MenuOption>,
    pub placeholder: String,
    pub disabled: bool,
    pub min_values: usize,
    pub max_values: usize,
}

/// Builds the close-selection menu: one option per registered session,
/// in creation order, labelled with its id and describing its creator;
/// with no sessions left, a disabled menu with a single dummy option.
pub fn menu(reg: &SessionRegistry) -> (m: SelectMenuModel)
    ensures
        m.custom_id@ == "close via menu"@,
        reg.entries_view().len() == 0 ==> {
            &&& m.options@.len() == 1
            &&& m.options@[0].label@ == "You're not supposed to read this"@
            &&& m.options@[0].value@ == "lmao"@
            &&& m.options@[0].description is None
            &&& m.placeholder@ == "No connections left to close"@
            &&& m.disabled == true
        },
        reg.entries_view().len() > 0 ==> {
            &&& m.options@.len() == reg.entries_view().len()
            &&& (forall|i: int|
                0 <= i < m.options@.len() ==> {
                    &&& m.options@[i].label@ == dec_digits(reg.entries_view()[i].0 as nat)
                    &&& m.options@[i].value@ == dec_digits(reg.entries_view()[i].0 as nat)
                    &&& m.options@[i].description matches Some(d) && d@ == "Created by "@
                        + reg.entries_view()[i].1.spec_creator()
                })
            &&& m.placeholder@ == "Select connections to close"@
            &&& m.disabled == false
            &&& m.min_values == 1
            &&& m.max_values == reg.entries_view().len()
        },
{
    let snap = reg.snapshot();
    if snap.len() == 0 {
        let options: Vec<MenuOption> = vec![
            MenuOption {
                label: "You're not supposed to read this".to_owned(),
                value: "lmao".to_owned(),
                description: None,
            },
        ];
        SelectMenuModel {
            custom_id: "close via menu".to_owned(),
            options,
            placeholder: "No connections left to close".to_owned(),
            disabled: true,
            min_values: 1,
            max_values: 1,
        }
    } else {
        let n = snap.len();
        let mut options: Vec<MenuOption> = Vec::new();
        let mut i: usize = 0;
        while i < n
            invariant
                n == snap@.len(),
                n == reg.entries_view().len(),
                i <= n,
                options@.len() == i,
                forall|k: int|
                    0 <= k < snap@.len() ==> {
                        &&& snap@[k].0 == reg.entries_view()[k].0
                        &&& snap@[k].1@ == reg.entries_view()[k].1.spec_creator()
                    },
                forall|k: int|
                    0 <= k < i ==> {
                        &&& options@[k].label@ == dec_digits(reg.entries_view()[k].0 as nat)
                        &&& options@[k].value@ == dec_digits(reg.entries_view()[k].0 as nat)
                        &&& options@[k].description matches Some(d) && d@ == "Created by "@
                            + reg.entries_view()[k].1.spec_creator()
                    },
            decreases n - i,
        {
            let e = &snap[i];
            let label = u64_to_string(e.0);
            let value = label.clone();
            let mut description = String::new();
            proof {
                assert(description@ =~= Seq::<char>::empty());
            }
            description.append("Created by ");
            description.append(e.1.as_str());
            proof {
                assert(description@ =~= "Created by "@ + reg.entries_view()[i as int]
                    .1.spec_creator());
            }
            options.push(MenuOption { label, value, description: Some(description) });
            i += 1;
        }
        SelectMenuModel {
            custom_id: "close via menu".to_owned(),
            options,
            placeholder: "Select connections to close".to_owned(),
            disabled: false,
            min_values: 1,
            max_values: n,
        }
    }
}

/// One line of the session listing.
pub open spec fn session_line_spec(id: u64, c: Connection) -> Seq<char> {
    "**`"@ + dec_digits(id as nat) + "`**: created "@ + c.spec_creation() + " by `"@
        + c.spec_creator() + "`, expires "@ + c.spec_timeout()
}

/// The lines of the session listing, in creation order.
pub open spec fn session_lines_spec(s: Seq<(u64, Connection)>) -> Seq<Seq<char>> {
    Seq::new(s.len(), |i: int| session_line_spec(s[i].0, s[i].1))
}

/// Renders the "established connections" listing: one line per
/// registered session, in creation order, with its id, creation time,
/// creator and expiry time.
pub fn list_report(reg: &SessionRegistry) -> (s: String)
    ensures
        s@ == format_list_spec(
            "established connections"@,
            session_lines_spec(reg.entries_view()),
        ),
{
    let snap = reg.snapshot();
    let n = snap.len();
    let mut items: Vec<String> = Vec::new();
    let mut i: usize = 0;
    while i < n
        invariant
            n == snap@.len(),
            n == reg.entries_view().len(),
            i <= n,
            items@.len() == i,
            forall|k: int|
                0 <= k < snap@.len() ==> {
                    &&& snap@[k].0 == reg.entries_view()[k].0
                    &&& snap@[k].1@ == reg.entries_view()[k].1.spec_creator()
                    &&& snap@[k].2@ == reg.entries_view()[k].1.spec_creation()
                    &&& snap@[k].3@ == reg.entries_view()[k].1.spec_timeout()
                },
            forall|k: int|
                0 <= k < i ==> items@[k]@ == session_lines_spec(reg.entries_view())[k],
        decreases n - i,
    {
        let e = &snap[i];
        let mut line = String::new();
        proof {
            assert(line@ =~= Seq::<char>::empty());
        }
        line.append("**`");
        let id_str = u64_to_string(e.0);
        line.append(id_str.as_str());
        line.append("`**: created ");
        line.append(e.2.as_str());
        line.append(" by `");
        line.append(e.1.as_str());
        line.append("`, expires ");
        line.append(e.3.as_str());
        proof {
            assert(line@ =~= session_line_spec(
                reg.entries_view()[i as int].0,
                reg.entries_view()[i as int].1,
            ));
        }
        items.push(line);
        i += 1;
    }
    let s = format_list("established connections", &items);
    proof {
        assert(items@.map_values(|x: String| x@) =~= session_lines_spec(reg.entries_view()));
    }
    s
}

} // verus!
