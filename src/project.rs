//! Projects, their settings, and export formats.

use vstd::prelude::*;
use crate::erc::current_timestamp;
use crate::error::AppError;
use crate::model::{Schematic, fresh_id};
use crate::validation::texts;
use crate::validators::{string_length_ok, validate_string_length};

verus! {

/// Editing preferences of a project.
#[derive(Clone, Debug)]
pub struct ProjectSettings {
    pub grid_size: u32,
    pub snap_to_grid: bool,
    pub auto_save: bool,
    pub auto_save_interval: u32,
    pub default_units: String,
    pub color_scheme: String,
}

impl Default for ProjectSettings {
    /// A 10-unit snapping grid, saving every five minutes, in millimetres,
    /// with the light colour scheme.
    fn default() -> (r: Self)
        ensures
            r.grid_size == 10,
            r.snap_to_grid,
            r.auto_save,
            r.auto_save_interval == 300,
            r.default_units@ == "mm"@,
            r.color_scheme@ == "light"@,
    {
        ProjectSettings {
            grid_size: 10,
            snap_to_grid: true,
            auto_save: true,
            auto_save_interval: 300,
            default_units: String::from_str("mm"),
            color_scheme: String::from_str("light"),
        }
    }
}

/// Most schematics a project holds.
pub const MAX_SCHEMATICS: usize = 100;

/// A project: its sheets and settings. Times are seconds since the Unix
/// epoch.
#[derive(Clone, Debug)]
pub struct Project {
    pub id: String,
    pub name: String,
    pub description: Option<String>,
    pub version: String,
    pub author: Option<String>,
    pub created_at: i64,
    pub modified_at: i64,
    pub schematics: Vec<Schematic>,
    pub settings: ProjectSettings,
}

impl Project {
    /// An empty project at version 1.0.0, named `name`, which must be a valid
    /// name of at most 100 bytes.
    pub fn new(name: String) -> (r: Result<Self, AppError>)
        ensures
            r is Ok <==> string_length_ok(name@, 0, 100),
            r matches Ok(p) ==> p.name@ == name@ && p.version@ == "1.0.0"@ && p.schematics.len()
                == 0 && p.created_at == p.modified_at && p.description is None && p.author is None,
            r matches Err(e) ==> e matches AppError::InvalidInput(m) && m@ == "Invalid project name"@,
    {
        if !validate_string_length(name.as_str(), 100) {
            return Err(AppError::InvalidInput(String::from_str("Invalid project name")));
        }
        let now = current_timestamp();
        Ok(
            Project {
                id: fresh_id(),
                name,
                description: None,
                version: String::from_str("1.0.0"),
                author: None,
                created_at: now,
                modified_at: now,
                schematics: Vec::new(),
                settings: ProjectSettings::default(),
            },
        )
    }

    /// Adds a schematic while the project holds fewer than the maximum, and
    /// marks the project modified.
    pub fn add_schematic(&mut self, schematic: Schematic) -> (r: Result<(), AppError>)
        ensures
            r is Ok <==> old(self).schematics.len() < MAX_SCHEMATICS,
            r is Ok ==> final(self).schematics@ == old(self).schematics@.push(schematic),
            r is Err ==> final(self).schematics@ == old(self).schematics@ && final(self).modified_at
                == old(self).modified_at,
            r matches Err(e) ==> e matches AppError::InvalidOperation(m) && m@
                == "Maximum schematic limit (100) exceeded"@,
            final(self).created_at == old(self).created_at,
    {
        if self.schematics.len() >= MAX_SCHEMATICS {
            return Err(
                AppError::InvalidOperation(String::from_str("Maximum schematic limit (100) exceeded")),
            );
        }
        self.schematics.push(schematic);
        self.modified_at = current_timestamp();
        Ok(())
    }

    /// Marks the project modified now.
    pub fn update_modified(&mut self)
        ensures
            final(self).schematics@ == old(self).schematics@,
            final(self).created_at == old(self).created_at,
    {
        self.modified_at = current_timestamp();
    }

    pub fn schematic_count(&self) -> (r: usize)
        ensures
            r == self.schematics.len(),
    {
        self.schematics.len()
    }

    pub fn can_add_schematic(&self) -> (r: bool)
        ensures
            r == (self.schematics.len() < MAX_SCHEMATICS),
    {
        self.schematics.len() < MAX_SCHEMATICS
    }
}

/// Most entries the recent-projects list keeps.
pub const MAX_RECENT: usize = 10;

pub open spec fn other_than(path: Seq<char>) -> spec_fn(Seq<char>) -> bool {
    |t: Seq<char>| t != path
}

/// The recent-projects list after opening `path`: `path` first, then the
/// earlier entries other than `path`, at most `MAX_RECENT` in all.
pub open spec fn recent_after(recent: Seq<Seq<char>>, path: Seq<char>) -> Seq<Seq<char>> {
    let all = seq![path] + recent.filter(other_than(path));
    if all.len() > MAX_RECENT {
        all.take(MAX_RECENT as int)
    } else {
        all
    }
}

/// Records `path` as the most recently opened project.
pub fn add_to_recent(recent: &mut Vec<String>, path: String)
    ensures
        texts(final(recent)@) == recent_after(texts(old(recent)@), path@),
{
    let mut kept: Vec<String> = Vec::new();
    kept.push(path.clone());
    let mut i: usize = 0;
    while i < recent.len()
        invariant
            i <= recent.len(),
            texts(kept@) == seq![path@] + texts(recent@.subrange(0, i as int)).filter(other_than(path@)),
        decreases recent.len() - i,
    {
        proof {
            let pre = texts(recent@.subrange(0, i as int));
            assert(texts(recent@.subrange(0, i + 1)) =~= pre.push(recent@[i as int]@));
            pre.lemma_filter_push(recent@[i as int]@, other_than(path@));
        }
        if !(recent[i] == path) {
            let ghost before = kept@;
            let entry = recent[i].clone();
            kept.push(entry);
            assert(texts(kept@) =~= texts(before).push(recent@[i as int]@));
            assert(texts(kept@) =~= seq![path@] + texts(recent@.subrange(0, i + 1)).filter(other_than(path@)));
        } else {
            assert(texts(kept@) =~= seq![path@] + texts(recent@.subrange(0, i + 1)).filter(other_than(path@)));
        }
        i = i + 1;
    }
    assert(recent@.subrange(0, i as int) =~= recent@);
    if kept.len() > MAX_RECENT {
        kept.truncate(MAX_RECENT);
        assert(texts(kept@) =~= (seq![path@] + texts(old(recent)@).filter(other_than(path@))).take(MAX_RECENT as int));
    }
    *recent = kept;
}

/// Formats a project can be exported to.
#[derive(Clone, Copy, Debug, PartialEq, Eq, Structural)]
pub enum ExportFormat {
    Json,
    Zip,
}

/// Netlist formats.
#[derive(Clone, Copy, Debug, PartialEq, Eq, Structural)]
pub enum NetlistFormat {
    Spice,
    Verilog,
    KiCad,
}

/// Bill-of-materials formats.
#[derive(Clone, Copy, Debug, PartialEq, Eq, Structural)]
pub enum BomFormat {
    Csv,
    Json,
    Html,
}

} // verus!
