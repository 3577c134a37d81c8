//! The desktop service boundary: where the local database lives, and what
//! saving a finished video export is allowed to copy.

use vstd::prelude::*;

use crate::error::{AppError, AppErrorView};
use crate::json::{str_eq, Json, JsonView};
use crate::text::{chars_of, concat, slice_chars, string_of};

verus! {

/// The local SQLite database, identified by its file path.
#[derive(Debug)]
pub struct Database {
    pub path: String,
}

/// Owns local persistence; the services coordinate rules while the repository
/// owns every transaction on the database.
#[derive(Debug)]
pub struct Repository {
    pub db: Database,
}

impl Repository {
    /// Bind the repository to a database.
    pub fn new(db: Database) -> (r: Repository)
        ensures
            r.db.path@ == db.path@,
    {
        Repository { db }
    }
}

/// The file name of the local database inside the application data directory.
pub open spec fn database_file() -> Seq<char> {
    "ai_application_factory.db"@
}

/// `dir` joined with `name`, with one `/` between them.
pub open spec fn joined(dir: Seq<char>, name: Seq<char>) -> Seq<char> {
    if dir.len() == 0 {
        name
    } else if dir.last() == '/' {
        dir + name
    } else {
        dir + "/"@ + name
    }
}

/// Owns all local application state.
#[derive(Debug)]
pub struct DesktopService {
    pub repository: Repository,
}

impl DesktopService {
    /// The service over the database file in the application data directory.
    pub fn open(data_dir: &str) -> (r: DesktopService)
        ensures
            r.repository.db.path@ == joined(data_dir@, database_file()),
    {
        let name = "ai_application_factory.db";
        let dir = chars_of(data_dir);
        let path = if dir.len() == 0 {
            name.to_owned()
        } else if dir[dir.len() - 1] == '/' {
            concat(data_dir, name)
        } else {
            let with_slash = concat(data_dir, "/");
            concat(with_slash.as_str(), name)
        };
        proof {
            assert(dir@.last() == data_dir@.last());
        }
        DesktopService { repository: Repository::new(Database { path }) }
    }

    /// Decide what saving a finished video export copies: the destination
    /// must name a `.zip` file, the task must be an export of this project
    /// (so that no caller can read other media through this boundary), the
    /// export must have succeeded, and its result must hold the archive URL,
    /// which is returned.
    pub fn save_video_export(&self, project_id: &str, destination: &str, task: &Json) -> (r: Result<String, AppError>)
        ensures
            match r {
                Ok(url) => saved_export(project_id@, destination@, task@) == Ok::<Seq<char>, AppErrorView>(url@),
                Err(e) => saved_export(project_id@, destination@, task@) == Err::<Seq<char>, AppErrorView>(e@),
            },
    {
        if !zip_destination(destination) {
            return Err(AppError::bad_request("保存文件必须使用 .zip 扩展名"));
        }
        match crate::video_export::check_export_task(task, project_id) {
            Ok(()) => {},
            Err(e) => {
                return Err(e);
            },
        }
        completed_export_url(task)
    }
}

/// Position of the last `c` in `s`, or -1.
pub open spec fn last_index(s: Seq<char>, c: char) -> int
    decreases s.len(),
{
    if s.len() == 0 {
        -1
    } else if s.last() == c {
        s.len() - 1
    } else {
        last_index(s.drop_last(), c)
    }
}

pub proof fn lemma_last_index(s: Seq<char>, c: char)
    ensures
        -1 <= last_index(s, c) < s.len(),
        last_index(s, c) >= 0 ==> s[last_index(s, c)] == c,
        forall|j: int| last_index(s, c) < j < s.len() ==> s[j] != c,
    decreases s.len(),
{
    if s.len() > 0 && s.last() != c {
        lemma_last_index(s.drop_last(), c);
        assert forall|j: int| last_index(s, c) < j < s.len() implies s[j] != c by {
            if j < s.len() - 1 {
                assert(s.drop_last()[j] == s[j]);
            }
        }
    }
}

/// The file name of a path, as `Path::file_name` reads it: the last
/// component that is not empty or `.`, and none when that component is `..`.
pub open spec fn file_name(p: Seq<char>) -> Option<Seq<char>>
    decreases p.len(),
{
    if p.len() == 0 {
        None
    } else {
        let cut = last_index(p, '/');
        let segment = p.subrange(cut + 1, p.len() as int);
        let before = if cut < 0 {
            Seq::empty()
        } else {
            p.subrange(0, cut)
        };
        if segment.len() == 0 || segment == "."@ {
            proof {
                lemma_last_index(p, '/');
            }
            file_name(before)
        } else if segment == ".."@ {
            None
        } else {
            Some(segment)
        }
    }
}

/// The extension of a file name, as `Path::extension` reads it: the text
/// after the last `.`, unless there is none or it is the first character.
pub open spec fn extension(name: Seq<char>) -> Option<Seq<char>> {
    let dot = last_index(name, '.');
    if dot <= 0 {
        None
    } else {
        Some(name.subrange(dot + 1, name.len() as int))
    }
}

/// Whether a destination path names a file with the `zip` extension.
pub open spec fn is_zip_destination(p: Seq<char>) -> bool {
    match file_name(p) {
        Some(name) => extension(name) == Some("zip"@),
        None => false,
    }
}

fn last_index_of(s: &Vec<char>, end: usize, c: char) -> (r: Option<usize>)
    requires
        end <= s.len(),
    ensures
        match r {
            Some(i) => i == last_index(s@.subrange(0, end as int), c),
            None => last_index(s@.subrange(0, end as int), c) == -1,
        },
{
    let mut i = end;
    while i > 0
        invariant
            i <= end,
            end <= s.len(),
            last_index(s@.subrange(0, end as int), c) == last_index(s@.subrange(0, i as int), c),
        decreases i,
    {
        let ghost prefix = s@.subrange(0, i as int);
        if s[i - 1] == c {
            return Some(i - 1);
        }
        proof {
            assert(prefix.drop_last() =~= s@.subrange(0, i - 1));
        }
        i -= 1;
    }
    None
}

/// Whether `destination` names a `.zip` file.
pub fn zip_destination(destination: &str) -> (r: bool)
    ensures
        r == is_zip_destination(destination@),
{
    let p = chars_of(destination);
    let mut end = p.len();
    proof {
        assert(p@.subrange(0, end as int) =~= p@);
    }
    loop
        invariant
            p@ == destination@,
            end <= p.len(),
            file_name(p@) == file_name(p@.subrange(0, end as int)),
        decreases end,
    {
        let ghost q = p@.subrange(0, end as int);
        if end == 0 {
            return false;
        }
        let cut = last_index_of(&p, end, '/');
        proof {
            lemma_last_index(q, '/');
        }
        let start: usize = match cut {
            Some(c) => c + 1,
            None => 0,
        };
        let segment = slice_chars(&p, start, end);
        proof {
            assert(segment@ =~= q.subrange(last_index(q, '/') + 1, q.len() as int));
        }
        let text = string_of(segment.as_slice());
        if segment.len() == 0 || str_eq(text.as_str(), ".") {
            match cut {
                Some(c) => {
                    proof {
                        assert(q.subrange(0, c as int) =~= p@.subrange(0, c as int));
                    }
                    end = c;
                },
                None => {
                    proof {
                        assert(file_name(Seq::<char>::empty()) == None::<Seq<char>>);
                    }
                    return false;
                },
            }
        } else if str_eq(text.as_str(), "..") {
            return false;
        } else {
            let dot = last_index_of(&segment, segment.len(), '.');
            proof {
                assert(segment@.subrange(0, segment.len() as int) =~= segment@);
                lemma_last_index(segment@, '.');
            }
            let d = match dot {
                Some(d) => d,
                None => {
                    return false;
                },
            };
            if d == 0 {
                return false;
            }
            let ext = slice_chars(&segment, d + 1, segment.len());
            let ext_text = string_of(ext.as_slice());
            return str_eq(ext_text.as_str(), "zip");
        }
    }
}

/// What saving a finished export answers.
pub open spec fn saved_export(project_id: Seq<char>, destination: Seq<char>, task: JsonView) -> Result<Seq<char>, AppErrorView> {
    if !is_zip_destination(destination) {
        Err(AppErrorView::BadRequest("保存文件必须使用 .zip 扩展名"@))
    } else if !crate::video_export::export_task_owned(task, project_id) {
        Err(AppErrorView::NotFound("视频导出任务不存在"@))
    } else {
        completed_export(task)
    }
}

/// The archive URL of a succeeded export task.
pub open spec fn completed_export(task: JsonView) -> Result<Seq<char>, AppErrorView> {
    if task.get("status"@) != Some(JsonView::Text("生成成功"@)) {
        Err(AppErrorView::Conflict("视频 ZIP 尚未准备完成"@))
    } else {
        match crate::json::get_in(task.get("result"@), "url"@) {
            Some(JsonView::Text(url)) => if url.len() > 0 {
                Ok(url)
            } else {
                Err(AppErrorView::NotFound("视频 ZIP 文件不存在"@))
            },
            _ => Err(AppErrorView::NotFound("视频 ZIP 文件不存在"@)),
        }
    }
}

/// The archive URL of a succeeded export task, or why there is none.
pub fn completed_export_url(task: &Json) -> (r: Result<String, AppError>)
    ensures
        match r {
            Ok(url) => completed_export(task@) == Ok::<Seq<char>, AppErrorView>(url@),
            Err(e) => completed_export(task@) == Err::<Seq<char>, AppErrorView>(e@),
        },
{
    let succeeded = match task.get("status") {
        Some(Json::Text(s)) => str_eq(s.as_str(), "生成成功"),
        other => {
            proof {
                match other {
                    Some(v) => crate::json::lemma_view_variant(*v),
                    None => {},
                }
            }
            false
        },
    };
    if !succeeded {
        return Err(AppError::Conflict("视频 ZIP 尚未准备完成".to_owned()));
    }
    let url = match task.get("result") {
        Some(result) => match result.get("url") {
            Some(Json::Text(url)) => url,
            other => {
                proof {
                    match other {
                        Some(v) => crate::json::lemma_view_variant(*v),
                        None => {},
                    }
                }
                return Err(AppError::NotFound("视频 ZIP 文件不存在".to_owned()));
            },
        },
        None => {
            return Err(AppError::NotFound("视频 ZIP 文件不存在".to_owned()));
        },
    };
    if chars_of(url.as_str()).len() == 0 {
        return Err(AppError::NotFound("视频 ZIP 文件不存在".to_owned()));
    }
    Ok(url.clone())
}

} // verus!
