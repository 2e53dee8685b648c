//! Where files that conversations name were kept before a user had a home of their own.
//!
//! Paths are compared by their parts.

use vstd::prelude::*;

use crate::paths::{
    as_parent, components, first_component_is_no_dot, is_continuation, is_in, is_rooted,
    is_same_path, join_path, joined_components, joined_path, leading, leading_components,
    leading_path, lies_in, one_part, part_text, parts, parts_are_in_order, path_parts, root_of,
    rooted_by_component, same_path, spans, trailing, trailing_components, trailing_path,
};
use crate::rows::StoredAttachment;
use crate::session_resources::SessionExecutionEnvironment;
use crate::text::{optional_text, same_text};

verus! {

/// The directory that holds the homes of users, where a home is that of the one user of a
/// personal installation.
pub open spec fn personal_host(user_home: Seq<char>) -> Option<Seq<char>> {
    let found = parts(user_home).map_values(part_text(user_home));
    let n = found.len() as int;
    if n >= 2 && found[n - 1] == "_personal"@ && found[n - 2] == "users"@ {
        Some(leading(user_home, n - 2))
    } else {
        None
    }
}

/// A recorded path as it is since the data moved into the home of the user.
pub open spec fn relocated(host: Seq<char>, user_home: Seq<char>, path: Seq<char>) -> Seq<char> {
    if lies_in(path, joined_path(host, "data"@)) {
        joined_path(user_home, trailing(path, parts(host).len() as int))
    } else {
        path
    }
}

/// A path lies in a directory that a session owns.
pub open spec fn is_owned(environment: SessionExecutionEnvironment, path: Seq<char>) -> bool {
    ||| lies_in(path, environment.session_private_directory@)
    ||| lies_in(path, environment.session_attachment_directory@)
    ||| lies_in(path, environment.session_tool_image_directory@)
    ||| environment.workspace_private_directory is Some && lies_in(
        path,
        environment.workspace_private_directory->0@,
    )
}

/// Where a recorded file is now.
pub open spec fn current_path(
    user_home: Seq<char>,
    path: Seq<char>,
    environment: SessionExecutionEnvironment,
) -> Seq<char> {
    match personal_host(user_home) {
        Some(host) => if is_owned(environment, relocated(host, user_home, path)) {
            relocated(host, user_home, path)
        } else {
            path
        },
        None => path,
    }
}

/// Where an attachment was read before, where it is read at the place that is expected.
pub open spec fn historical_path(
    user_home: Seq<char>,
    readable: Seq<char>,
    expected: Seq<char>,
) -> Option<Seq<char>> {
    match personal_host(user_home) {
        Some(host) => if same_path(readable, expected) && lies_in(expected, user_home) {
            Some(joined_path(host, trailing(expected, parts(user_home).len() as int)))
        } else {
            None
        },
        None => None,
    }
}

fn host_of(user_home: &str) -> (host: Option<String>)
    ensures
        optional_text(host) == personal_host(user_home@),
{
    let found = path_parts(user_home);
    let n: usize = found.len();
    proof {
        assert(spans(found@).len() == found@.len());
        parts_are_in_order(user_home@, 0);
    }
    if n < 2 {
        return None;
    }
    proof {
        assert(spans(found@)[n - 1] == parts(user_home@)[n - 1]);
        assert(spans(found@)[n - 2] == parts(user_home@)[n - 2]);
    }
    let last = user_home.substring_char(found[n - 1].start, found[n - 1].end);
    let parent = user_home.substring_char(found[n - 2].start, found[n - 2].end);
    if same_text(last, "_personal") && same_text(parent, "users") {
        Some(leading_path(user_home, &found, n - 2))
    } else {
        None
    }
}

/// Where a recorded file is now: in the home of the user, where it went there with a session that
/// owns it, and where it was recorded otherwise.
pub fn current_recorded_resource_path(
    user_home: &str,
    path: &str,
    environment: &SessionExecutionEnvironment,
) -> (current: String)
    ensures
        current@ == current_path(user_home@, path@, *environment),
{
    let host = match host_of(user_home) {
        Some(host) => host,
        None => {
            return path.to_owned();
        },
    };
    let source = join_path(host.as_str(), "data");
    let current = if is_in(path, source.as_str()) {
        let behind: usize = path_parts(host.as_str()).len();
        let rest = trailing_path(path, &path_parts(path), behind);
        proof {
            assert(behind == parts(host@).len());
        }
        join_path(user_home, rest.as_str())
    } else {
        path.to_owned()
    };
    let in_workspace = match &environment.workspace_private_directory {
        Some(directory) => is_in(current.as_str(), directory.as_str()),
        None => false,
    };
    if is_in(current.as_str(), environment.session_private_directory.as_str()) || is_in(
        current.as_str(),
        environment.session_attachment_directory.as_str(),
    ) || is_in(current.as_str(), environment.session_tool_image_directory.as_str())
        || in_workspace {
        current
    } else {
        path.to_owned()
    }
}

/// Where an attachment was read before the data moved into the home of the user. `expected` is
/// where an attachment of its id and name is read now.
pub fn historical_attachment_path(
    user_home: &str,
    attachment: &StoredAttachment,
    expected: &str,
) -> (path: Option<String>)
    ensures
        optional_text(path) == historical_path(
            user_home@,
            attachment.agent_readable_path@,
            expected@,
        ),
{
    let host = match host_of(user_home) {
        Some(host) => host,
        None => {
            return None;
        },
    };
    if !is_same_path(attachment.agent_readable_path.as_str(), expected) || !is_in(
        expected,
        user_home,
    ) {
        return None;
    }
    let behind: usize = path_parts(user_home).len();
    let rest = trailing_path(expected, &path_parts(expected), behind);
    proof {
        assert(behind == parts(user_home@).len());
    }
    Some(join_path(host.as_str(), rest.as_str()))
}

/// What was recorded before the data moved is found where it is now, where the session owns it.
pub proof fn historical_path_is_found_again(
    user_home: Seq<char>,
    now: Seq<char>,
    environment: SessionExecutionEnvironment,
)
    requires
        personal_host(user_home) is Some,
        lies_in(now, joined_path(user_home, "data"@)),
        is_owned(environment, now),
    ensures
        ({
            let then = historical_path(user_home, now, now);
            &&& then is Some
            &&& same_path(current_path(user_home, then->0, environment), now)
        }),
{
    reveal_strlit("data");
    let host = personal_host(user_home)->0;
    let h = parts(host).len() as int;
    let u = parts(user_home).len() as int;
    let data = joined_path(user_home, "data"@);
    let source = joined_path(host, "data"@);
    let rest = trailing(now, u);
    let then = joined_path(host, rest);
    data_is_one_part();
    leading_components(user_home, u - 2);
    joined_components(user_home, "data"@);
    joined_components(host, "data"@);
    assert(root_of(user_home) =~= root_of(now)) by {
        assert(components(data)[0] == components(now)[0]) by {
            assert(components(now).take(components(data).len() as int)[0] == components(now)[0]);
        }
        rooted_by_component(now);
        rooted_by_component(data);
        assert(root_of(data) =~= root_of(user_home)) by {
            assert(data[0] == user_home[0]);
        }
    }
    let r = root_of(now).len() as int;
    assert(components(now).take(r + u) =~= components(user_home)) by {
        assert(components(now).take(components(data).len() as int).take(r + u) =~= components(
            now,
        ).take(r + u));
        assert(components(data).take(r + u) =~= components(user_home));
    }
    trailing_components(now, u);
    assert(lies_in(now, user_home));
    assert(historical_path(user_home, now, now) == Some(then));
    assert(rest.len() > 0 && components(rest)[0] == "data"@) by {
        assert(components(rest)[0] == components(now)[r + u]);
        assert(components(now).take(components(data).len() as int)[r + u] == components(data)[r
            + u]);
        assert(components(data)[r + u] == components("data"@)[0]);
    }
    joined_components(host, rest);
    assert(lies_in(then, source)) by {
        assert(components(then).take(components(source).len() as int) =~= components(source));
    }
    assert(root_of(then) =~= root_of(host)) by {
        if host.len() > 0 {
            assert(then[0] == as_parent(host)[0]);
        } else {
            assert(then =~= rest);
        }
    }
    let moved = joined_path(user_home, trailing(then, h));
    trailing_components(then, h);
    assert(components(trailing(then, h)) =~= components(rest)) by {
        assert(components(host).len() == root_of(host).len() + h);
        assert(components(then).skip(components(host).len() as int) =~= components(rest));
    }
    let again = trailing(then, h);
    assert(is_continuation(again)) by {
        if h == 0 && !is_rooted(then) {
            first_component_is_no_dot(again);
        }
    }
    joined_components(user_home, again);
    assert(components(moved) =~= components(now)) by {
        assert(components(now).take(r + u) + components(now).skip(r + u) =~= components(now));
    }
    owned_by_components(environment, now, moved);
}

proof fn owned_by_components(
    environment: SessionExecutionEnvironment,
    left: Seq<char>,
    right: Seq<char>,
)
    requires
        same_path(left, right),
    ensures
        is_owned(environment, left) == is_owned(environment, right),
{
}

proof fn data_is_one_part()
    ensures
        components("data"@) == seq!["data"@],
        is_continuation("data"@),
        parts("data"@).len() == 1,
{
    reveal_strlit("data");
    let text = "data"@;
    one_part(text);
}

} // verus!
